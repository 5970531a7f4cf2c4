//! Document processing for retrieval: supported file types, token-window
//! chunking with overlap, and content hashing.

use vstd::prelude::*;
use crate::path::{extension_of, extension_vec};
use crate::text::{chars_of, vec_eq_str, push_char};

verus! {

/// File extensions that are indexed.
pub open spec fn supported_extensions_spec() -> Seq<Seq<char>> {
    seq![
        "md"@, "txt"@, "rs"@, "py"@, "js"@, "ts"@, "jsx"@, "tsx"@, "java"@, "c"@, "cpp"@, "h"@, "hpp"@,
        "go"@, "rb"@, "php"@, "sh"@, "bash"@, "yml"@, "yaml"@, "json"@, "toml"@, "xml"@, "html"@, "css"@,
        "scss"@,
    ]
}

/// The indexed extensions are exactly `md`, `txt`, `rs`, `py`, `js`, `ts`, `jsx`,
/// `tsx`, `java`, `c`, `cpp`, `h`, `hpp`, `go`, `rb`, `php`, `sh`, `bash`, `yml`,
/// `yaml`, `json`, `toml`, `xml`, `html`, `css` and `scss`.
pub proof fn law_supported_extensions(e: Seq<char>)
    ensures
        supported_extensions_spec().contains(e) <==> (e == "md"@ || e == "txt"@ || e == "rs"@ || e == "py"@ || e == "js"@ || e == "ts"@ || e == "jsx"@ ||
            e == "tsx"@ || e == "java"@ || e == "c"@ || e == "cpp"@ || e == "h"@ || e == "hpp"@ || e == "go"@ ||
            e == "rb"@ || e == "php"@ || e == "sh"@ || e == "bash"@ || e == "yml"@ || e == "yaml"@ || e ==
            "json"@ || e == "toml"@ || e == "xml"@ || e == "html"@ || e == "css"@ || e == "scss"@),
{
    let l = supported_extensions_spec();
    assert(l[0] == "md"@);
    assert(l[1] == "txt"@);
    assert(l[2] == "rs"@);
    assert(l[3] == "py"@);
    assert(l[4] == "js"@);
    assert(l[5] == "ts"@);
    assert(l[6] == "jsx"@);
    assert(l[7] == "tsx"@);
    assert(l[8] == "java"@);
    assert(l[9] == "c"@);
    assert(l[10] == "cpp"@);
    assert(l[11] == "h"@);
    assert(l[12] == "hpp"@);
    assert(l[13] == "go"@);
    assert(l[14] == "rb"@);
    assert(l[15] == "php"@);
    assert(l[16] == "sh"@);
    assert(l[17] == "bash"@);
    assert(l[18] == "yml"@);
    assert(l[19] == "yaml"@);
    assert(l[20] == "json"@);
    assert(l[21] == "toml"@);
    assert(l[22] == "xml"@);
    assert(l[23] == "html"@);
    assert(l[24] == "css"@);
    assert(l[25] == "scss"@);
}

/// Whether a file at `path` is indexed: it has one of the indexed extensions.
pub open spec fn is_indexed_path(path: Seq<char>) -> bool {
    match extension_of(path) {
        Some(e) => supported_extensions_spec().contains(e),
        None => false,
    }
}

/// A file is indexed exactly when its extension is one of the indexed ones: a
/// `.txt` or `.md` file is, a file with another extension or none is not.
pub proof fn law_indexed_paths(path: Seq<char>)
    ensures
        is_indexed_path(path) <==> (match extension_of(path) {
            Some(e) => e == "md"@ || e == "txt"@ || e == "rs"@ || e == "py"@ || e == "js"@ || e == "ts"@ || e == "jsx"@
                || e == "tsx"@ || e == "java"@ || e == "c"@ || e == "cpp"@ || e == "h"@ || e == "hpp"@ || e ==
                "go"@ || e == "rb"@ || e == "php"@ || e == "sh"@ || e == "bash"@ || e == "yml"@ || e == "yaml"@
                || e == "json"@ || e == "toml"@ || e == "xml"@ || e == "html"@ || e == "css"@ || e == "scss"@,
            None => false,
        }),
{
    match extension_of(path) {
        Some(e) => law_supported_extensions(e),
        None => {},
    }
}

/// The file extensions that are indexed.
pub fn supported_extensions() -> (r: Vec<&'static str>)
    ensures
        r@.map_values(|e: &str| e@) == supported_extensions_spec(),
{
    let r = vec![
        "md", "txt", "rs", "py", "js", "ts", "jsx", "tsx", "java", "c", "cpp", "h", "hpp", "go", "rb", "php",
        "sh", "bash", "yml", "yaml", "json", "toml", "xml", "html", "css", "scss",
    ];
    assert(r@.map_values(|e: &str| e@) =~= supported_extensions_spec());
    r
}

/// Whether an extension is indexed.
pub fn is_supported_ext(ext: &Vec<char>) -> (r: bool)
    ensures
        r == supported_extensions_spec().contains(ext@),
{
    let exts = supported_extensions();
    let ghost views = exts@.map_values(|e: &str| e@);
    let mut i: usize = 0;
    while i < exts.len()
        invariant
            i <= exts@.len(),
            views == exts@.map_values(|e: &str| e@),
            views == supported_extensions_spec(),
            forall|k: int| 0 <= k < i ==> views[k] != ext@,
        decreases exts@.len() - i,
    {
        if vec_eq_str(ext, exts[i]) {
            assert(views[i as int] == ext@);
            return true;
        }
        i = i + 1;
    }
    false
}

/// A piece of a document, `tokens` tokens long.
#[derive(Debug, Clone)]
pub struct DocumentChunk {
    pub index: usize,
    pub text: String,
    pub tokens: usize,
}

/// Splits documents into overlapping token windows.
#[derive(Debug, Clone, Copy, PartialEq, Eq, Structural)]
pub struct DocumentManager {
    pub chunk_size: usize,
    pub chunk_overlap: usize,
}

/// Why a document could not be chunked.
#[derive(Debug, Clone, Copy, PartialEq, Eq, Structural)]
pub enum RagError {
    /// The tokenizer failed on the text.
    Tokenize,
    /// A window of tokens did not decode to valid UTF-8.
    Decode,
}

impl RagError {
    /// The error's message.
    pub fn message(&self) -> (r: &'static str)
        ensures
            r@ == (match *self {
                RagError::Tokenize => "Failed to tokenize text"@,
                RagError::Decode => "Failed to decode tokens"@,
            }),
    {
        match self {
            RagError::Tokenize => "Failed to tokenize text",
            RagError::Decode => "Failed to decode tokens",
        }
    }
}

/// The token windows `[start, end)` of a text of `total` tokens, from `start` on:
/// each window holds up to `size` tokens; the next starts `overlap` tokens before
/// the previous end (never before 0); the last one ends at `total`.
pub open spec fn windows_from(total: nat, size: nat, overlap: nat, start: nat) -> Seq<(nat, nat)>
    decreases total - start,
{
    if start >= total {
        Seq::empty()
    } else {
        let end: nat = if start + size < total { start + size } else { total };
        if end == total || overlap >= size {
            seq![(start, end)]
        } else {
            let next: nat = if end >= overlap { (end - overlap) as nat } else { 0 };
            if next <= start {
                seq![(start, end)]
            } else {
                seq![(start, end)] + windows_from(total, size, overlap, next)
            }
        }
    }
}

/// The token windows of a text of `total` tokens.
pub open spec fn windows(total: nat, size: nat, overlap: nat) -> Seq<(nat, nat)> {
    windows_from(total, size, overlap, 0)
}

/// Chunking terminates: the overlap is smaller than the window, or one window suffices.
pub open spec fn chunking_terminates(total: nat, size: nat, overlap: nat) -> bool {
    overlap < size || total <= size
}

/// The token windows of a text of `total` tokens (`[start, end)` pairs).
pub fn chunk_windows(total: usize, size: usize, overlap: usize) -> (r: Vec<(usize, usize)>)
    requires
        chunking_terminates(total as nat, size as nat, overlap as nat),
    ensures
        r@.len() == windows(total as nat, size as nat, overlap as nat).len(),
        forall|i: int| 0 <= i < r@.len() ==> (#[trigger] r@[i]).0 == windows(total as nat, size as nat, overlap as nat)[i].0
            && r@[i].1 == windows(total as nat, size as nat, overlap as nat)[i].1,
{
    let ghost w = windows(total as nat, size as nat, overlap as nat);
    let mut r: Vec<(usize, usize)> = Vec::new();
    if total == 0 {
        return r;
    }
    let mut start: usize = 0;
    loop
        invariant
            chunking_terminates(total as nat, size as nat, overlap as nat),
            start < total,
            w == windows(total as nat, size as nat, overlap as nat),
            r@.len() + windows_from(total as nat, size as nat, overlap as nat, start as nat).len() == w.len(),
            forall|i: int| 0 <= i < r@.len() ==> (#[trigger] r@[i]).0 == w[i].0 && r@[i].1 == w[i].1,
            forall|i: int| 0 <= i < windows_from(total as nat, size as nat, overlap as nat, start as nat).len()
                ==> #[trigger] windows_from(total as nat, size as nat, overlap as nat, start as nat)[i] == w[r@.len() + i],
        decreases total - start,
    {
        let ghost rest = windows_from(total as nat, size as nat, overlap as nat, start as nat);
        let end: usize = if size < total - start { start + size } else { total };
        assert(rest[0] == (start as nat, end as nat));
        assert(w[r@.len() as int] == rest[0]);
        r.push((start, end));
        if end == total {
            assert(rest.len() == 1);
            return r;
        }
        let next: usize = if end >= overlap { end - overlap } else { 0 };
        assert(next > start);
        let ghost rest2 = windows_from(total as nat, size as nat, overlap as nat, next as nat);
        assert(rest =~= seq![(start as nat, end as nat)] + rest2);
        assert forall|i: int| 0 <= i < rest2.len() implies #[trigger] rest2[i] == w[r@.len() + i] by {
            assert(rest2[i] == rest[i + 1]);
        }
        start = next;
    }
}

/// The name given to what the cl100k tokenizer produces for a text (special
/// tokens allowed): `None` when the tokenizer reports an error.
pub uninterp spec fn cl100k_encoding(text: Seq<char>) -> Option<Seq<u32>>;

/// The name given to what the cl100k tokenizer decodes a token sequence to:
/// `None` when the tokens do not form valid UTF-8 (or are unknown).
pub uninterp spec fn cl100k_decoding(tokens: Seq<u32>) -> Option<Seq<char>>;

/// Encodes text with the shared cl100k tokenizer of `tiktoken_rs`
/// (`CoreBPE::encode` with all special tokens allowed). Claimed: the result is a
/// function of the text, named `cl100k_encoding`; nothing about the tokens.
#[verifier::external_body]
fn encode_cl100k(text: &str) -> (r: Option<Vec<u32>>)
    ensures
        match cl100k_encoding(text@) {
            Some(t) => r matches Some(v) && v@ == t,
            None => r is None,
        },
{
    let bpe = tiktoken_rs::cl100k_base_singleton();
    bpe.encode(text, &bpe.special_tokens()).ok().map(|(tokens, _)| tokens)
}

/// Decodes tokens with the shared cl100k tokenizer (`CoreBPE::decode`). Claimed:
/// the result is a function of the tokens, named `cl100k_decoding`.
#[verifier::external_body]
fn decode_cl100k(tokens: &[u32]) -> (r: Option<String>)
    ensures
        match cl100k_decoding(tokens@) {
            Some(t) => r matches Some(s) && s@ == t,
            None => r is None,
        },
{
    tiktoken_rs::cl100k_base_singleton().decode(tokens).ok()
}

/// The chunks of a text, or the first error met.
pub open spec fn chunks_spec(text: Seq<char>, size: nat, overlap: nat) -> Result<Seq<(nat, Seq<char>, nat)>, RagError> {
    match cl100k_encoding(text) {
        None => Err(RagError::Tokenize),
        Some(t) => {
            let w = windows(t.len(), size, overlap);
            if exists|i: int| 0 <= i < w.len() && cl100k_decoding(t.subrange(w[i].0 as int, w[i].1 as int)) is None {
                Err(RagError::Decode)
            } else {
                Ok(Seq::new(w.len(), |i: int| (
                    i as nat,
                    cl100k_decoding(t.subrange(w[i].0 as int, w[i].1 as int))->0,
                    (w[i].1 - w[i].0) as nat,
                )))
            }
        },
    }
}

/// Whether chunking a text terminates: the windows advance when the overlap is
/// smaller than the window size, and one window suffices for a short text.
pub open spec fn chunk_text_terminates(text: Seq<char>, size: nat, overlap: nat) -> bool {
    match cl100k_encoding(text) {
        Some(t) => chunking_terminates(t.len(), size, overlap),
        None => true,
    }
}

/// The chunks as `(index, text, token count)` triples.
pub open spec fn chunk_views(cs: Seq<DocumentChunk>) -> Seq<(nat, Seq<char>, nat)> {
    cs.map_values(|c: DocumentChunk| (c.index as nat, c.text@, c.tokens as nat))
}

fn slice_u32(v: &Vec<u32>, from: usize, to: usize) -> (r: Vec<u32>)
    requires
        from <= to <= v@.len(),
    ensures
        r@ == v@.subrange(from as int, to as int),
{
    let mut r: Vec<u32> = Vec::new();
    let mut i = from;
    while i < to
        invariant
            from <= i <= to <= v@.len(),
            r@ == v@.subrange(from as int, i as int),
        decreases to - i,
    {
        r.push(v[i]);
        assert(v@.subrange(from as int, i + 1) =~= v@.subrange(from as int, i as int).push(v@[i as int]));
        i = i + 1;
    }
    r
}

/// The name given to the SHA-256 digest of a byte string.
pub uninterp spec fn sha256_of(bytes: Seq<u8>) -> Seq<u8>;

/// Hashes bytes with `sha2::Sha256` (`Digest::digest`). Claimed: the digest is a
/// function of the bytes (named `sha256_of`) and is 32 bytes long.
#[verifier::external_body]
pub(crate) fn sha256_digest(bytes: &[u8]) -> (r: Vec<u8>)
    ensures
        r@ == sha256_of(bytes@),
        r@.len() == 32,
{
    <sha2::Sha256 as sha2::Digest>::digest(bytes).to_vec()
}

/// The lowercase hexadecimal digit for `n < 16`.
pub open spec fn hex_digit(n: nat) -> char {
    if n < 10 {
        crate::text::digit_char(n)
    } else if n == 10 { 'a' } else if n == 11 { 'b' } else if n == 12 { 'c' } else if n == 13 { 'd' } else if n == 14 { 'e' } else { 'f' }
}

/// Bytes in lowercase hexadecimal, two digits each (`format!("{:x}", ..)` of a digest).
pub open spec fn hex_of(bytes: Seq<u8>) -> Seq<char>
    decreases bytes.len(),
{
    if bytes.len() == 0 {
        Seq::empty()
    } else {
        hex_of(bytes.drop_last()) + seq![hex_digit((bytes.last() / 16) as nat), hex_digit((bytes.last() % 16) as nat)]
    }
}

proof fn lemma_hex_digit(m: nat, n: nat)
    requires
        m < 16,
        n < 16,
    ensures
        ('0' <= hex_digit(m) <= '9') || ('a' <= hex_digit(m) <= 'f'),
        hex_digit(m) == hex_digit(n) ==> m == n,
{
}

proof fn lemma_hex_shape(a: Seq<u8>)
    ensures
        hex_of(a).len() == 2 * a.len(),
        forall|i: int| 0 <= i < hex_of(a).len() ==> ('0' <= #[trigger] hex_of(a)[i] <= '9') || ('a' <= hex_of(a)[i] <= 'f'),
    decreases a.len(),
{
    if a.len() > 0 {
        let a0 = a.drop_last();
        let x = a.last();
        lemma_hex_shape(a0);
        lemma_hex_digit((x / 16) as nat, (x / 16) as nat);
        lemma_hex_digit((x % 16) as nat, (x % 16) as nat);
        let h = hex_of(a);
        assert forall|i: int| 0 <= i < h.len() implies ('0' <= #[trigger] h[i] <= '9') || ('a' <= h[i] <= 'f') by {
            if i < h.len() - 2 {
                assert(h[i] == hex_of(a0)[i]);
            }
        }
    }
}

/// Hex text is two lowercase hexadecimal digits per byte, and different bytes
/// never give the same text: equal hashes come only from equal digests.
pub proof fn law_hex_of(a: Seq<u8>, b: Seq<u8>)
    ensures
        hex_of(a).len() == 2 * a.len(),
        forall|i: int| 0 <= i < hex_of(a).len() ==> ('0' <= #[trigger] hex_of(a)[i] <= '9') || ('a' <= hex_of(a)[i] <= 'f'),
        hex_of(a) == hex_of(b) ==> a == b,
    decreases a.len(),
{
    lemma_hex_shape(a);
    lemma_hex_shape(b);
    if hex_of(a) == hex_of(b) && a.len() > 0 {
        let a0 = a.drop_last();
        let x = a.last();
        let b0 = b.drop_last();
        let y = b.last();
        lemma_hex_shape(a0);
        lemma_hex_shape(b0);
        let h = hex_of(a);
        let hb = hex_of(b);
        assert(h.subrange(0, h.len() - 2) =~= hex_of(a0));
        assert(hb.subrange(0, hb.len() - 2) =~= hex_of(b0));
        law_hex_of(a0, b0);
        assert(h[h.len() - 2] == hb[hb.len() - 2]);
        assert(h[h.len() - 1] == hb[hb.len() - 1]);
        lemma_hex_digit((x / 16) as nat, (y / 16) as nat);
        lemma_hex_digit((x % 16) as nat, (y % 16) as nat);
        assert(x == y);
        assert(a =~= a0.push(x));
        assert(b =~= b0.push(y));
    }
}

fn hex_digit_exec(n: u8) -> (c: char)
    requires
        n < 16,
    ensures
        c == hex_digit(n as nat),
{
    if n == 0 { '0' } else if n == 1 { '1' } else if n == 2 { '2' } else if n == 3 { '3' }
    else if n == 4 { '4' } else if n == 5 { '5' } else if n == 6 { '6' } else if n == 7 { '7' }
    else if n == 8 { '8' } else if n == 9 { '9' } else if n == 10 { 'a' } else if n == 11 { 'b' }
    else if n == 12 { 'c' } else if n == 13 { 'd' } else if n == 14 { 'e' } else { 'f' }
}

/// Bytes in lowercase hexadecimal.
pub fn hex_lower(bytes: &Vec<u8>) -> (r: String)
    ensures
        r@ == hex_of(bytes@),
        r@.len() == 2 * bytes@.len(),
{
    let mut r = String::new();
    let mut i: usize = 0;
    while i < bytes.len()
        invariant
            i <= bytes@.len(),
            r@ == hex_of(bytes@.take(i as int)),
            r@.len() == 2 * i,
        decreases bytes@.len() - i,
    {
        let b = bytes[i];
        assert(bytes@.take(i + 1).drop_last() =~= bytes@.take(i as int));
        assert(bytes@.take(i + 1).last() == b);
        push_char(&mut r, hex_digit_exec(b / 16));
        push_char(&mut r, hex_digit_exec(b % 16));
        assert(r@ =~= hex_of(bytes@.take(i as int)) + seq![hex_digit((b / 16) as nat), hex_digit((b % 16) as nat)]);
        i = i + 1;
    }
    assert(bytes@.take(bytes@.len() as int) =~= bytes@);
    r
}

/// The content hash of a text: its UTF-8 bytes hashed with SHA-256, in hex.
pub open spec fn content_hash(text: Seq<char>) -> Seq<char> {
    hex_of(sha256_of(vstd::utf8::encode_utf8(text)))
}

/// What the indexer does with a processed file.
#[derive(Debug, Clone, Copy, PartialEq, Eq, Structural)]
pub enum IndexAction {
    /// The text gave no chunks: nothing is stored.
    NothingToIndex,
    /// The stored copy has the same hash: left as it is.
    Unchanged,
    /// The stored copy differs: its chunks are dropped and the file indexed again.
    Reindex,
    /// The file is not stored yet: indexed.
    Index,
}

/// Decides what to do with a processed file from its chunk count and the hash of
/// the stored copy, if there is one.
pub fn index_action(chunk_count: usize, stored_hash: Option<&str>, content_hash: &str) -> (r: IndexAction)
    ensures
        chunk_count == 0 ==> r == IndexAction::NothingToIndex,
        chunk_count > 0 ==> r == (match stored_hash {
            Some(h) => if h@ == content_hash@ { IndexAction::Unchanged } else { IndexAction::Reindex },
            None => IndexAction::Index,
        }),
{
    if chunk_count == 0 {
        return IndexAction::NothingToIndex;
    }
    match stored_hash {
        Some(h) => if crate::text::str_eq(h, content_hash) { IndexAction::Unchanged } else { IndexAction::Reindex },
        None => IndexAction::Index,
    }
}

/// A retrieved chunk as it is shown to the model: the document's file name, the
/// relevance already written out (three decimals), and the chunk's text.
#[derive(Debug, Clone)]
pub struct RetrievedChunk {
    pub filename: String,
    pub relevance: String,
    pub chunk_text: String,
}

/// The block that presents the `n`-th retrieved chunk.
pub open spec fn source_block(n: nat, c: RetrievedChunk) -> Seq<char> {
    "## Source "@ + crate::text::decimal(n) + ": "@ + c.filename@ + " (relevance: "@ + c.relevance@ + ")\n\n"@
        + c.chunk_text@ + "\n\n"@
}

/// The blocks of the retrieved chunks, numbered from 1 in order.
pub open spec fn source_blocks(cs: Seq<RetrievedChunk>) -> Seq<char>
    decreases cs.len(),
{
    if cs.len() == 0 {
        Seq::empty()
    } else {
        source_blocks(cs.drop_last()) + source_block(cs.len(), cs.last())
    }
}

/// The retrieved context handed to the model: nothing when nothing was
/// retrieved, else a heading followed by one block per chunk.
pub fn retrieved_context(chunks: &Vec<RetrievedChunk>) -> (r: String)
    ensures
        r@ == (if chunks@.len() == 0 { Seq::empty() } else { "# Retrieved Context\n\n"@ + source_blocks(chunks@) }),
{
    if chunks.len() == 0 {
        return String::new();
    }
    let mut out = String::from_str("# Retrieved Context\n\n");
    let ghost head = out@;
    let mut i: usize = 0;
    while i < chunks.len()
        invariant
            i <= chunks@.len(),
            head == "# Retrieved Context\n\n"@,
            out@ == head + source_blocks(chunks@.take(i as int)),
        decreases chunks@.len() - i,
    {
        let c = &chunks[i];
        let ghost before = out@;
        out.append("## Source ");
        crate::text::append_decimal(&mut out, (i + 1) as u64);
        out.append(": ");
        out.append(c.filename.as_str());
        out.append(" (relevance: ");
        out.append(c.relevance.as_str());
        out.append(")\n\n");
        out.append(c.chunk_text.as_str());
        out.append("\n\n");
        assert(chunks@.take(i + 1).drop_last() =~= chunks@.take(i as int));
        assert(chunks@.take(i + 1).last() == chunks@[i as int]);
        assert(out@ =~= before + source_block((i + 1) as nat, chunks@[i as int]));
        i = i + 1;
    }
    assert(chunks@.take(chunks@.len() as int) =~= chunks@);
    out
}

/// Counts of an indexing run.
#[derive(Debug, Clone, Copy, PartialEq, Eq, Structural)]
pub struct IndexStats {
    pub files_found: usize,
    pub files_processed: usize,
    pub files_failed: usize,
    pub total_chunks: usize,
    pub total_embeddings: usize,
}

impl IndexStats {
    /// All counts zero.
    pub fn new() -> (s: Self)
        ensures
            s == (IndexStats { files_found: 0, files_processed: 0, files_failed: 0, total_chunks: 0, total_embeddings: 0 }),
    {
        IndexStats { files_found: 0, files_processed: 0, files_failed: 0, total_chunks: 0, total_embeddings: 0 }
    }

    /// Counts one file as indexed or as failed.
    pub fn record(&mut self, ok: bool)
        requires
            old(self).files_processed < usize::MAX,
            old(self).files_failed < usize::MAX,
        ensures
            ok ==> *final(self) == (IndexStats { files_processed: (old(self).files_processed + 1) as usize, ..*old(self) }),
            !ok ==> *final(self) == (IndexStats { files_failed: (old(self).files_failed + 1) as usize, ..*old(self) }),
    {
        if ok {
            self.files_processed = self.files_processed + 1;
        } else {
            self.files_failed = self.files_failed + 1;
        }
    }
}

/// A stored document.
#[derive(Debug, Clone)]
pub struct DocumentInfo {
    pub id: i64,
    pub filename: String,
    pub file_size: i64,
    pub created_at: i64,
    pub updated_at: i64,
}

/// A change seen in the documents directory.
#[derive(Debug, Clone, Copy, PartialEq, Eq, Structural)]
pub enum FileEventKind {
    Create,
    Modify,
    Remove,
    Other,
}

/// What the watcher does about a changed path.
#[derive(Debug, Clone)]
pub enum WatchAction {
    /// Index the file.
    Index,
    /// Drop the stored document with this file name.
    Remove { filename: String },
    Ignore,
}

impl DocumentManager {
    /// A manager with the given window size and overlap (in tokens).
    pub fn new(chunk_size: usize, chunk_overlap: usize) -> (m: Self)
        ensures
            m.chunk_size == chunk_size,
            m.chunk_overlap == chunk_overlap,
    {
        DocumentManager { chunk_size, chunk_overlap }
    }

    /// The SHA-256 hash of a text's UTF-8 bytes, in lowercase hexadecimal.
    pub fn calculate_content_hash(&self, content: &str) -> (r: String)
        ensures
            r@ == content_hash(content@),
            r@.len() == 64,
    {
        let digest = sha256_digest(content.as_bytes());
        hex_lower(&digest)
    }

    /// What the watcher does about a path: a created or modified file with an
    /// indexed extension is indexed; a removed path drops the document with its
    /// file name; anything else is ignored.
    pub fn watch_action(&self, kind: FileEventKind, path: &str, is_file: bool) -> (r: WatchAction)
        ensures
            match kind {
                FileEventKind::Create | FileEventKind::Modify => if is_file && is_indexed_path(path@) {
                    r is Index
                } else {
                    r is Ignore
                },
                FileEventKind::Remove => match crate::path::file_name_of(path@) {
                    Some(n) => r matches WatchAction::Remove { filename } && filename@ == n,
                    None => r is Ignore,
                },
                FileEventKind::Other => r is Ignore,
            },
    {
        match kind {
            FileEventKind::Create | FileEventKind::Modify => {
                if is_file && self.is_supported_extension(path) {
                    WatchAction::Index
                } else {
                    WatchAction::Ignore
                }
            },
            FileEventKind::Remove => {
                let p = chars_of(path);
                match crate::path::file_name_vec(&p) {
                    Some(n) => WatchAction::Remove { filename: crate::text::string_of(&n) },
                    None => WatchAction::Ignore,
                }
            },
            FileEventKind::Other => WatchAction::Ignore,
        }
    }

    /// Whether a file has an indexed extension.
    pub fn is_supported_extension(&self, path: &str) -> (r: bool)
        ensures
            r == is_indexed_path(path@),
    {
        let p = chars_of(path);
        match extension_vec(&p) {
            Some(e) => is_supported_ext(&e),
            None => false,
        }
    }

    /// Splits a text into overlapping token windows and decodes each one.
    pub fn chunk_text(&self, text: &str) -> (r: Result<Vec<DocumentChunk>, RagError>)
        requires
            chunk_text_terminates(text@, self.chunk_size as nat, self.chunk_overlap as nat),
        ensures
            match chunks_spec(text@, self.chunk_size as nat, self.chunk_overlap as nat) {
                Ok(cs) => r matches Ok(v) && chunk_views(v@) == cs,
                Err(e) => r == Err::<Vec<DocumentChunk>, RagError>(e),
            },
    {
        let tokens = match encode_cl100k(text) {
            Some(t) => t,
            None => return Err(RagError::Tokenize),
        };
        let total = tokens.len();
        let ws = chunk_windows(total, self.chunk_size, self.chunk_overlap);
        let ghost w = windows(total as nat, self.chunk_size as nat, self.chunk_overlap as nat);
        let mut chunks: Vec<DocumentChunk> = Vec::new();
        let mut i: usize = 0;
        while i < ws.len()
            invariant
                i <= ws@.len() == w.len(),
                cl100k_encoding(text@) == Some(tokens@),
                chunking_terminates(tokens@.len(), self.chunk_size as nat, self.chunk_overlap as nat),
                w == windows(tokens@.len(), self.chunk_size as nat, self.chunk_overlap as nat),
                forall|k: int| 0 <= k < ws@.len() ==> (#[trigger] ws@[k]).0 == w[k].0 && ws@[k].1 == w[k].1,
                chunks@.len() == i,
                forall|k: int| 0 <= k < i ==> cl100k_decoding(tokens@.subrange(w[k].0 as int, w[k].1 as int)) is Some,
                forall|k: int| 0 <= k < i ==> #[trigger] chunk_views(chunks@)[k] == (
                    k as nat,
                    cl100k_decoding(tokens@.subrange(w[k].0 as int, w[k].1 as int))->0,
                    (w[k].1 - w[k].0) as nat,
                ),
            decreases ws@.len() - i,
        {
            let (start, end) = ws[i];
            proof { lemma_windows_bounds(tokens@.len(), self.chunk_size as nat, self.chunk_overlap as nat, 0, i as int); }
            let piece = slice_u32(&tokens, start, end);
            match decode_cl100k(piece.as_slice()) {
                Some(s) => {
                    let ghost before = chunks@;
                    chunks.push(DocumentChunk { index: i, text: s, tokens: end - start });
                    assert forall|k: int| 0 <= k < i + 1 implies #[trigger] chunk_views(chunks@)[k] == (
                        k as nat,
                        cl100k_decoding(tokens@.subrange(w[k].0 as int, w[k].1 as int))->0,
                        (w[k].1 - w[k].0) as nat,
                    ) by {
                        if k < i {
                            assert(chunk_views(chunks@)[k] == chunk_views(before)[k]);
                        }
                    }
                },
                None => {
                    return Err(RagError::Decode);
                },
            }
            i = i + 1;
        }
        assert(chunk_views(chunks@) =~= chunks_spec(text@, self.chunk_size as nat, self.chunk_overlap as nat)->Ok_0);
        Ok(chunks)
    }

    /// Chunks a document's text; the text is returned with its chunks.
    pub fn process_document(&self, content: String) -> (r: Result<(String, Vec<DocumentChunk>), RagError>)
        requires
            chunk_text_terminates(content@, self.chunk_size as nat, self.chunk_overlap as nat),
        ensures
            match chunks_spec(content@, self.chunk_size as nat, self.chunk_overlap as nat) {
                Ok(cs) => r matches Ok(pair) && pair.0 == content && chunk_views(pair.1@) == cs,
                Err(e) => r == Err::<(String, Vec<DocumentChunk>), RagError>(e),
            },
    {
        let chunks = self.chunk_text(content.as_str())?;
        Ok((content, chunks))
    }

    /// Chunks a document's text when chunking terminates (see `try_chunk_text`).
    pub fn try_process_document(&self, content: String) -> (r: Option<Result<(String, Vec<DocumentChunk>), RagError>>)
        ensures
            !chunk_text_terminates(content@, self.chunk_size as nat, self.chunk_overlap as nat) ==> r is None,
            chunk_text_terminates(content@, self.chunk_size as nat, self.chunk_overlap as nat) ==> (r matches Some(res)
                && match chunks_spec(content@, self.chunk_size as nat, self.chunk_overlap as nat) {
                    Ok(cs) => res matches Ok(pair) && pair.0 == content && chunk_views(pair.1@) == cs,
                    Err(e) => res == Err::<(String, Vec<DocumentChunk>), RagError>(e),
                }),
    {
        match self.try_chunk_text(content.as_str()) {
            None => None,
            Some(Ok(chunks)) => Some(Ok((content, chunks))),
            Some(Err(e)) => Some(Err(e)),
        }
    }

    /// Chunks a text when chunking terminates; `None` when the window would never
    /// advance (the overlap is not smaller than the window and one window is not enough).
    pub fn try_chunk_text(&self, text: &str) -> (r: Option<Result<Vec<DocumentChunk>, RagError>>)
        ensures
            !chunk_text_terminates(text@, self.chunk_size as nat, self.chunk_overlap as nat) ==> r is None,
            chunk_text_terminates(text@, self.chunk_size as nat, self.chunk_overlap as nat) ==> (r matches Some(res)
                && match chunks_spec(text@, self.chunk_size as nat, self.chunk_overlap as nat) {
                    Ok(cs) => res matches Ok(v) && chunk_views(v@) == cs,
                    Err(e) => res == Err::<Vec<DocumentChunk>, RagError>(e),
                }),
    {
        match encode_cl100k(text) {
            Some(t) => {
                if !(self.chunk_overlap < self.chunk_size || t.len() <= self.chunk_size) {
                    return None;
                }
            },
            None => {},
        }
        Some(self.chunk_text(text))
    }
}

/// Every window lies within the text and is not empty.
pub proof fn lemma_windows_bounds(total: nat, size: nat, overlap: nat, start: nat, i: int)
    requires
        chunking_terminates(total, size, overlap),
        0 <= i < windows_from(total, size, overlap, start).len(),
    ensures
        start <= windows_from(total, size, overlap, start)[i].0 < windows_from(total, size, overlap, start)[i].1 <= total,
    decreases total - start,
{
    let w = windows_from(total, size, overlap, start);
    let end: nat = if start + size < total { start + size } else { total };
    if i == 0 {
        assert(w[0] == (start, end));
    } else {
        let next: nat = if end >= overlap { (end - overlap) as nat } else { 0 };
        let w2 = windows_from(total, size, overlap, next);
        assert(w == seq![(start, end)] + w2);
        lemma_windows_bounds(total, size, overlap, next, i - 1);
        assert(w[i] == w2[i - 1]);
    }
}

/// The windows of a non-empty text cover it: the first starts at 0, the last ends
/// at the end, each holds at most `size` tokens, and each next window starts
/// `overlap` tokens before the previous end.
pub proof fn law_windows_cover(total: nat, size: nat, overlap: nat, start: nat)
    requires
        start < total,
        chunking_terminates(total, size, overlap),
        size > 0,
    ensures
        windows_from(total, size, overlap, start).len() > 0,
        windows_from(total, size, overlap, start)[0].0 == start,
        windows_from(total, size, overlap, start).last().1 == total,
        forall|i: int| 0 <= i < windows_from(total, size, overlap, start).len() ==>
            #[trigger] windows_from(total, size, overlap, start)[i].1 - windows_from(total, size, overlap, start)[i].0 <= size,
        forall|i: int| 0 < i < windows_from(total, size, overlap, start).len() ==>
            (#[trigger] windows_from(total, size, overlap, start)[i]).0 + overlap == windows_from(total, size, overlap, start)[i - 1].1,
    decreases total - start,
{
    let w = windows_from(total, size, overlap, start);
    let end: nat = if start + size < total { start + size } else { total };
    if end != total {
        let next: nat = if end >= overlap { (end - overlap) as nat } else { 0 };
        assert(overlap < size);
        law_windows_cover(total, size, overlap, next);
        let w2 = windows_from(total, size, overlap, next);
        assert(w =~= seq![(start, end)] + w2);
        assert forall|i: int| 0 <= i < w.len() implies #[trigger] w[i].1 - w[i].0 <= size by {
            if i > 0 {
                assert(w[i] == w2[i - 1]);
            }
        }
        assert(next + overlap == end);
        assert forall|i: int| 0 < i < w.len() implies (#[trigger] w[i]).0 + overlap == w[i - 1].1 by {
            assert(w[i] == w2[i - 1]);
            if i > 1 {
                assert(w[i - 1] == w2[i - 2]);
                assert(w2[i - 1].0 + overlap == w2[i - 2].1);
            } else {
                assert(w[0] == (start, end));
            }
        }
    }
}

/// The chunks of a text are numbered 0, 1, 2, ... in order, and every chunk holds
/// at least one token.
pub proof fn law_chunks_numbered_and_nonempty(text: Seq<char>, size: nat, overlap: nat)
    requires
        chunk_text_terminates(text, size, overlap),
    ensures
        chunks_spec(text, size, overlap) matches Ok(cs) ==> forall|i: int|
            0 <= i < cs.len() ==> (#[trigger] cs[i]).0 == i && cs[i].2 > 0,
{
    match cl100k_encoding(text) {
        Some(t) => {
            let w = windows(t.len(), size, overlap);
            assert forall|i: int| 0 <= i < w.len() implies w[i].0 < w[i].1 by {
                lemma_windows_bounds(t.len(), size, overlap, 0, i);
            }
        },
        None => {},
    }
}

} // verus!
