//! The web API's request and response shapes, and the decisions its handlers
//! make: paging the log view, naming models, validating session updates and
//! settling tool approvals.

use vstd::prelude::*;
use crate::chat::{FileAttachment, Source};
use crate::text::{contains_seq, str_eq, trim};

verus! {

/// A chat request from the web client.
#[derive(Debug, Clone)]
pub struct ChatRequest {
    pub message: String,
    pub session_id: Option<String>,
    pub files: Vec<FileAttachment>,
    pub system_prompt: Option<String>,
    pub model: Option<String>,
}

/// The model a chat request uses: its own, else the configured one.
pub fn model_for_request(requested: &Option<String>, configured: &str) -> (r: String)
    ensures
        r@ == (match *requested { Some(m) => m@, None => configured@ }),
{
    match requested {
        Some(m) => m.clone(),
        None => String::from_str(configured),
    }
}

/// A message of a session as the client sees it.
#[derive(Debug, Clone)]
pub struct SessionMessage {
    pub role: String,
    pub content: String,
    pub sources: Vec<Source>,
    pub timestamp: i64,
    pub thinking_steps: Option<Vec<crate::chat::ThinkingStep>>,
}

/// A request to rename a session.
#[derive(Debug, Clone)]
pub struct UpdateSessionRequest {
    pub title: String,
}

/// The title a rename stores: the requested one, trimmed; a blank title is refused.
pub fn validate_session_title(req: &UpdateSessionRequest) -> (r: Result<String, String>)
    ensures
        trim(req.title@).len() == 0 ==> (r matches Err(e) && e@ == "Title cannot be empty"@),
        trim(req.title@).len() > 0 ==> (r matches Ok(t) && t@ == trim(req.title@)),
{
    let t = crate::chat::trimmed(req.title.as_str());
    if t.as_str().is_empty() {
        Err(String::from_str("Title cannot be empty"))
    } else {
        Ok(t)
    }
}

/// The query of the log view.
#[derive(Debug, Clone)]
pub struct LogsQuery {
    pub page: usize,
    pub page_size: usize,
    pub level: Option<String>,
    pub session_id: Option<String>,
}

/// The page shown when none is asked for.
pub fn default_page() -> (r: usize)
    ensures
        r == 1,
{
    1
}

/// The page size used when none is asked for.
pub fn default_page_size() -> (r: usize)
    ensures
        r == 50,
{
    50
}

/// A log entry as the client sees it.
#[derive(Debug, Clone)]
pub struct LogEntryResponse {
    pub id: i64,
    pub timestamp: i64,
    pub level: String,
    pub target: String,
    pub message: String,
    pub session_id: Option<String>,
}

/// A page of log entries.
#[derive(Debug, Clone)]
pub struct LogsResponse {
    pub logs: Vec<LogEntryResponse>,
    pub total: usize,
    pub page: usize,
    pub page_size: usize,
    pub total_pages: usize,
}

/// Where a page starts: pages are numbered from 1 (page 0 is read as page 1).
pub open spec fn page_offset(page: nat, page_size: nat) -> nat {
    ((if page >= 1 { page - 1 } else { 0 }) * page_size) as nat
}

/// The items of a page.
pub open spec fn page_of<T>(items: Seq<T>, page: nat, page_size: nat) -> Seq<T> {
    let off = page_offset(page, page_size);
    if off >= items.len() {
        Seq::empty()
    } else if off + page_size < items.len() {
        items.subrange(off as int, (off + page_size) as int)
    } else {
        items.subrange(off as int, items.len() as int)
    }
}

/// Pages split the list without gaps or overlaps: item `i` is entry `i % size`
/// of page `i / size + 1`; no page holds more than `size` items; page 0 is read
/// as page 1.
pub proof fn law_pages_cover<T>(items: Seq<T>, page_size: nat, i: int, page: nat)
    requires
        page_size > 0,
        0 <= i < items.len(),
    ensures
        i % (page_size as int) < page_of(items, (i / (page_size as int) + 1) as nat, page_size).len(),
        page_of(items, (i / (page_size as int) + 1) as nat, page_size)[i % (page_size as int)] == items[i],
        page_of(items, page, page_size).len() <= page_size,
        page_of(items, 0, page_size) == page_of(items, 1, page_size),
{
    let d = page_size as int;
    let q = i / d;
    let r = i % d;
    vstd::arithmetic::div_mod::lemma_fundamental_div_mod(i, d);
    assert(q >= 0 && 0 <= r < d) by (nonlinear_arith)
        requires
            i >= 0,
            d > 0,
            q == i / d,
            r == i % d,
    ;
    assert(q * d == d * q) by (nonlinear_arith);
    let off = page_offset((q + 1) as nat, page_size);
    assert(off == q * d);
    assert(off + r == i);
    let pg = page_of(items, (q + 1) as nat, page_size);
    if off + page_size < items.len() {
        assert(pg[r] == items[off + r]);
    } else {
        assert(pg[r] == items[off + r]);
    }
}

/// One page of a list, with the list's length and the number of pages.
pub fn paginate<T>(items: Vec<T>, page: usize, page_size: usize) -> (r: (Vec<T>, usize, usize))
    requires
        page_size > 0,
        page_offset(page as nat, page_size as nat) <= usize::MAX,
        items@.len() + page_size <= usize::MAX,
    ensures
        r.0@ == page_of(items@, page as nat, page_size as nat),
        r.1 == items@.len(),
        r.2 == (items@.len() + page_size - 1) / (page_size as int),
{
    let mut items = items;
    let total = items.len();
    let total_pages = (total + page_size - 1) / page_size;
    let before_page: usize = if page >= 1 { page - 1 } else { 0 };
    assert(before_page * page_size == page_offset(page as nat, page_size as nat));
    let offset = before_page * page_size;
    if offset >= total {
        return (Vec::new(), total, total_pages);
    }
    let mut rest = items.split_off(offset);
    if rest.len() > page_size {
        rest.truncate(page_size);
    }
    (rest, total, total_pages)
}

/// Metadata about a model, from the bundled model list.
#[derive(Debug, Clone)]
pub struct ModelMetadata {
    pub name: String,
    pub max_context_length: u32,
    pub provider: String,
    pub aliases: Option<Vec<String>>,
    pub model_type: Option<String>,
    pub pricing_model: Option<String>,
}

/// A model offered to the client.
#[derive(Debug, Clone)]
pub struct ModelInfo {
    pub id: String,
    pub name: String,
    pub max_context_length: u32,
    pub provider: String,
    pub model_type: Option<String>,
    pub pricing_model: Option<String>,
}

/// The models offered to the client.
#[derive(Debug, Clone)]
pub struct ModelsResponse {
    pub models: Vec<ModelInfo>,
}

/// The API settings shown to the client.
#[derive(Debug, Clone)]
pub struct ConfigResponse {
    pub api_url: String,
    pub api_model: String,
    pub context_window: u32,
}

/// Whether a model id is an embedding model (those are not offered for chat).
pub fn is_embedding_model(id: &str) -> (r: bool)
    ensures
        r == contains_seq(id@, "embedding"@),
{
    let v = crate::text::chars_of(id);
    let pat = crate::text::chars_of("embedding");
    let found = crate::text::find_vec(&v, &pat, 0);
    found.is_some()
}

/// Whether the metadata entry `e` (key, metadata) describes model `id`: it lists
/// `id` among its aliases, or one of the key and the id contains the other.
pub open spec fn metadata_matches(key: Seq<char>, meta: ModelMetadata, id: Seq<char>) -> bool {
    (match meta.aliases {
        Some(a) => crate::text::has_string(a@, id),
        None => false,
    }) || contains_seq(id, key) || contains_seq(key, id)
}

/// Whether `needle` occurs in `hay`.
fn str_contains(hay: &str, needle: &str) -> (r: bool)
    ensures
        r == contains_seq(hay@, needle@),
{
    let h = crate::text::chars_of(hay);
    let n = crate::text::chars_of(needle);
    crate::text::find_vec(&h, &n, 0).is_some()
}

/// What `find_model_metadata` returns for `id`: the entry whose key is `id`; when no
/// key is `id`, the first entry that matches by alias or name; else nothing.
pub open spec fn metadata_found(entries: Seq<(String, ModelMetadata)>, id: Seq<char>, r: Option<usize>) -> bool {
    match r {
        Some(i) => i < entries.len() && (entries[i as int].0@ == id || ((forall|k: int| 0 <= k < entries.len()
            ==> entries[k].0@ != id) && metadata_matches(entries[i as int].0@, entries[i as int].1, id)
            && forall|j: int| 0 <= j < i ==> !metadata_matches(#[trigger] entries[j].0@, entries[j].1, id))),
        None => forall|k: int| 0 <= k < entries.len() ==> entries[k].0@ != id && !metadata_matches(
            #[trigger] entries[k].0@,
            entries[k].1,
            id,
        ),
    }
}

/// Entry `e` (key and metadata) describes model `id`: its key is the id, contains
/// the id or is contained in it, or its aliases list the id.
pub open spec fn describes_model(e: (String, ModelMetadata), id: Seq<char>) -> bool {
    ||| e.0@ == id
    ||| contains_seq(e.0@, id)
    ||| contains_seq(id, e.0@)
    ||| (e.1.aliases matches Some(a) && crate::text::has_string(a@, id))
}

/// A model is found whenever some entry describes it (a key `qwen2.5-coder`
/// describes the id `qwen2.5`), and whatever is found describes it.
pub proof fn law_metadata_found_iff_described(entries: Seq<(String, ModelMetadata)>, id: Seq<char>, r: Option<usize>, k: int)
    requires
        metadata_found(entries, id, r),
    ensures
        (0 <= k < entries.len() && describes_model(entries[k], id)) ==> r is Some,
        r matches Some(i) ==> describes_model(entries[i as int], id),
{
    if 0 <= k < entries.len() && describes_model(entries[k], id) && r is None {
        assert(entries[k].0@ != id && !metadata_matches(entries[k].0@, entries[k].1, id));
    }
}

/// With unique keys, an entry whose key is exactly the id is the one found,
/// wherever it stands and whatever entries before it also match.
pub proof fn law_metadata_exact_key_wins(entries: Seq<(String, ModelMetadata)>, id: Seq<char>, r: Option<usize>, k: int)
    requires
        metadata_found(entries, id, r),
        forall|i: int, j: int| 0 <= i < j < entries.len() ==> entries[i].0@ != entries[j].0@,
        0 <= k < entries.len(),
        entries[k].0@ == id,
    ensures
        r == Some(k as usize),
{
    match r {
        Some(i) => {
            assert(entries[i as int].0@ == id);
            if (i as int) < k {
                assert(entries[i as int].0@ != entries[k].0@);
            } else if k < (i as int) {
                assert(entries[k].0@ != entries[i as int].0@);
            }
        },
        None => {
            assert(entries[k].0@ != id);
        },
    }
}

/// Finds the metadata entry for a model: keys are unique, so an exact key is found
/// wherever it stands; otherwise the first entry that matches by alias or name.
pub fn find_model_metadata(entries: &Vec<(String, ModelMetadata)>, id: &str) -> (r: Option<usize>)
    requires
        forall|i: int, j: int| 0 <= i < j < entries@.len() ==> entries@[i].0@ != entries@[j].0@,
    ensures
        metadata_found(entries@, id@, r),
{
    let mut i: usize = 0;
    while i < entries.len()
        invariant
            i <= entries@.len(),
            forall|k: int| 0 <= k < i ==> entries@[k].0@ != id@,
        decreases entries@.len() - i,
    {
        if str_eq(entries[i].0.as_str(), id) {
            return Some(i);
        }
        i = i + 1;
    }
    let mut j: usize = 0;
    while j < entries.len()
        invariant
            j <= entries@.len(),
            forall|k: int| 0 <= k < entries@.len() ==> entries@[k].0@ != id@,
            forall|k: int| 0 <= k < j ==> !metadata_matches(#[trigger] entries@[k].0@, entries@[k].1, id@),
        decreases entries@.len() - j,
    {
        let key = entries[j].0.as_str();
        let alias_hit = match &entries[j].1.aliases {
            Some(a) => crate::text::vec_has_string(a, id),
            None => false,
        };
        if alias_hit || str_contains(id, key) || str_contains(key, id) {
            return Some(j);
        }
        j = j + 1;
    }
    None
}

/// The model entry offered for `id`: from its metadata when found, else with the
/// id as name, the default context length, provider "Unknown" and the default
/// pricing model.
pub fn model_info(id: &str, meta: Option<&ModelMetadata>, default_max_context_length: u32, default_pricing_model: &Option<String>) -> (r: ModelInfo)
    ensures
        r.id@ == id@,
        match meta {
            Some(m) => r.name@ == m.name@ && r.max_context_length == m.max_context_length && r.provider@ == m.provider@
                && crate::text::opt_chars(r.model_type) == crate::text::opt_chars(m.model_type)
                && crate::text::opt_chars(r.pricing_model) == crate::text::opt_chars(m.pricing_model),
            None => r.name@ == id@ && r.max_context_length == default_max_context_length && r.provider@ == "Unknown"@
                && r.model_type is None && crate::text::opt_chars(r.pricing_model) == crate::text::opt_chars(
                *default_pricing_model),
        },
{
    match meta {
        Some(m) => ModelInfo {
            id: String::from_str(id),
            name: m.name.clone(),
            max_context_length: m.max_context_length,
            provider: m.provider.clone(),
            model_type: crate::text::clone_opt(&m.model_type),
            pricing_model: crate::text::clone_opt(&m.pricing_model),
        },
        None => ModelInfo {
            id: String::from_str(id),
            name: String::from_str(id),
            max_context_length: default_max_context_length,
            provider: String::from_str("Unknown"),
            model_type: None,
            pricing_model: crate::text::clone_opt(default_pricing_model),
        },
    }
}

/// A decision on a pending tool approval.
#[derive(Debug, Clone)]
pub struct ToolApprovalRequest {
    pub approval_id: String,
    pub approved: bool,
    /// Whether the decision is also saved in the configuration.
    pub save_decision: bool,
    /// `"tool"` or `"tool:detail"` (such as `"bash:ls"`); empty means the tool itself.
    pub scope: String,
}

/// The reply to an approval decision.
#[derive(Debug, Clone)]
pub struct ToolApprovalResponse {
    pub success: bool,
    pub message: String,
}

/// What a saved decision applies to: the given scope, or the tool when none is given.
pub fn approval_scope(scope: &str, tool_name: &str) -> (r: String)
    ensures
        r@ == (if scope@.len() == 0 { tool_name@ } else { scope@ }),
{
    if scope.is_empty() {
        String::from_str(tool_name)
    } else {
        String::from_str(scope)
    }
}

/// How an approval decision went.
pub enum ApprovalStep {
    /// No pending approval has that id (or it expired).
    NotFound,
    /// The waiting conversation could not be told.
    NotDelivered,
    /// Delivered, but saving the decision failed with this error.
    SaveFailed { error: String },
    /// Delivered (and saved when asked).
    Done,
}

/// The reply for each outcome of an approval decision.
pub fn approval_response(step: ApprovalStep) -> (r: ToolApprovalResponse)
    ensures
        match step {
            ApprovalStep::NotFound => !r.success && r.message@ == "Approval request not found or expired"@,
            ApprovalStep::NotDelivered => !r.success && r.message@ == "Failed to send approval response"@,
            ApprovalStep::SaveFailed { error } => !r.success && r.message@
                == "Approval processed but failed to save to config: "@ + error@,
            ApprovalStep::Done => r.success && r.message@ == "Approval processed successfully"@,
        },
{
    match step {
        ApprovalStep::NotFound => ToolApprovalResponse {
            success: false,
            message: String::from_str("Approval request not found or expired"),
        },
        ApprovalStep::NotDelivered => ToolApprovalResponse {
            success: false,
            message: String::from_str("Failed to send approval response"),
        },
        ApprovalStep::SaveFailed { error } => {
            let mut m = String::from_str("Approval processed but failed to save to config: ");
            m.append(error.as_str());
            ToolApprovalResponse { success: false, message: m }
        },
        ApprovalStep::Done => ToolApprovalResponse {
            success: true,
            message: String::from_str("Approval processed successfully"),
        },
    }
}

/// Three-way comparison of texts, character by character (the order of `str`'s
/// `Ord`, since UTF-8 keeps code point order): -1, 0 or 1.
pub open spec fn text_order(a: Seq<char>, b: Seq<char>) -> int
    decreases a.len(),
{
    if a.len() == 0 {
        if b.len() == 0 { 0 } else { -1 }
    } else if b.len() == 0 {
        1
    } else if a[0] < b[0] {
        -1
    } else if a[0] > b[0] {
        1
    } else {
        text_order(a.drop_first(), b.drop_first())
    }
}

/// Comparing the other way round gives the opposite answer.
pub proof fn lemma_text_order_flip(a: Seq<char>, b: Seq<char>)
    ensures
        text_order(a, b) == -text_order(b, a),
    decreases a.len(),
{
    if a.len() > 0 && b.len() > 0 && a[0] == b[0] {
        lemma_text_order_flip(a.drop_first(), b.drop_first());
    }
}

/// Texts compare equal exactly when they are the same.
pub proof fn lemma_text_order_zero(a: Seq<char>, b: Seq<char>)
    ensures
        (text_order(a, b) == 0) == (a == b),
    decreases a.len(),
{
    if a.len() > 0 && b.len() > 0 && a[0] == b[0] {
        lemma_text_order_zero(a.drop_first(), b.drop_first());
        if a.drop_first() == b.drop_first() {
            assert(a =~= seq![a[0]] + a.drop_first());
            assert(b =~= seq![b[0]] + b.drop_first());
        }
    } else if a.len() > 0 && b.len() > 0 {
        assert(a[0] != b[0]);
    } else if a.len() != b.len() {
    } else {
        assert(a =~= b);
    }
}

/// The order of texts is transitive, and strict when one step is strict.
pub proof fn lemma_text_order_trans(a: Seq<char>, b: Seq<char>, c: Seq<char>)
    requires
        text_order(a, b) <= 0,
        text_order(b, c) <= 0,
    ensures
        text_order(a, c) <= 0,
        (text_order(a, b) < 0 || text_order(b, c) < 0) ==> text_order(a, c) < 0,
    decreases a.len(),
{
    if a.len() > 0 && b.len() > 0 && c.len() > 0 && a[0] == b[0] && b[0] == c[0] {
        lemma_text_order_trans(a.drop_first(), b.drop_first(), c.drop_first());
    }
}

/// Compares two texts (see `text_order`).
pub fn compare_text(a: &str, b: &str) -> (r: i8)
    ensures
        r == text_order(a@, b@),
{
    let x = crate::text::chars_of(a);
    let y = crate::text::chars_of(b);
    let mut i: usize = 0;
    assert(x@.skip(0) =~= x@);
    assert(y@.skip(0) =~= y@);
    while i < x.len() && i < y.len()
        invariant
            i <= x@.len(),
            i <= y@.len(),
            x@ == a@,
            y@ == b@,
            text_order(a@, b@) == text_order(x@.skip(i as int), y@.skip(i as int)),
        decreases x@.len() - i,
    {
        let c = x[i];
        let d = y[i];
        assert(x@.skip(i as int)[0] == c);
        assert(y@.skip(i as int)[0] == d);
        if c < d {
            return -1;
        }
        if c > d {
            return 1;
        }
        assert(x@.skip(i as int).drop_first() =~= x@.skip(i + 1));
        assert(y@.skip(i as int).drop_first() =~= y@.skip(i + 1));
        i = i + 1;
    }
    if i == x.len() {
        if i == y.len() { 0 } else { -1 }
    } else {
        1
    }
}

/// Whether a model is shown first: a Qwen model by provider or by id.
pub open spec fn is_qwen(m: ModelInfo) -> bool {
    m.provider@ == "Qwen"@ || contains_seq(m.id@, "qwen"@)
}

/// The order of the model list: Qwen models first, then by provider, then by name.
pub open spec fn model_order(a: ModelInfo, b: ModelInfo) -> int {
    if is_qwen(a) && !is_qwen(b) {
        -1
    } else if !is_qwen(a) && is_qwen(b) {
        1
    } else if text_order(a.provider@, b.provider@) != 0 {
        text_order(a.provider@, b.provider@)
    } else {
        text_order(a.name@, b.name@)
    }
}

proof fn lemma_model_order_flip(a: ModelInfo, b: ModelInfo)
    ensures
        model_order(a, b) == -model_order(b, a),
{
    lemma_text_order_flip(a.provider@, b.provider@);
    lemma_text_order_flip(a.name@, b.name@);
}

proof fn lemma_model_order_trans(a: ModelInfo, b: ModelInfo, c: ModelInfo)
    requires
        model_order(a, b) <= 0,
        model_order(b, c) <= 0,
    ensures
        model_order(a, c) <= 0,
        (model_order(a, b) < 0 || model_order(b, c) < 0) ==> model_order(a, c) < 0,
{
    lemma_text_order_zero(a.provider@, b.provider@);
    lemma_text_order_zero(b.provider@, c.provider@);
    lemma_text_order_zero(a.provider@, c.provider@);
    if is_qwen(a) == is_qwen(b) && is_qwen(b) == is_qwen(c) {
        let pab = text_order(a.provider@, b.provider@);
        let pbc = text_order(b.provider@, c.provider@);
        if pab == 0 && pbc == 0 {
            lemma_text_order_trans(a.name@, b.name@, c.name@);
        } else if pab == 0 {
            assert(a.provider@ == b.provider@);
        } else if pbc == 0 {
            assert(b.provider@ == c.provider@);
        } else {
            lemma_text_order_trans(a.provider@, b.provider@, c.provider@);
        }
    }
}

/// Models of the same rank as a third are of the same rank as each other.
proof fn lemma_same_rank(x: ModelInfo, y: ModelInfo, m: ModelInfo)
    requires
        model_order(x, m) == 0,
        model_order(y, m) == 0,
    ensures
        model_order(x, y) == 0,
{
    lemma_model_order_flip(y, m);
    lemma_model_order_flip(x, m);
    lemma_model_order_trans(x, m, y);
    lemma_model_order_trans(y, m, x);
    lemma_model_order_flip(x, y);
}

fn model_is_qwen(m: &ModelInfo) -> (r: bool)
    ensures
        r == is_qwen(*m),
{
    str_eq(m.provider.as_str(), "Qwen") || str_contains(m.id.as_str(), "qwen")
}

/// Compares two models (see `model_order`).
pub fn compare_models(a: &ModelInfo, b: &ModelInfo) -> (r: i8)
    ensures
        r == model_order(*a, *b),
{
    let qa = model_is_qwen(a);
    let qb = model_is_qwen(b);
    if qa && !qb {
        -1
    } else if !qa && qb {
        1
    } else {
        let p = compare_text(a.provider.as_str(), b.provider.as_str());
        if p != 0 {
            p
        } else {
            compare_text(a.name.as_str(), b.name.as_str())
        }
    }
}

/// Every model is in order with every later one.
pub open spec fn models_sorted(s: Seq<ModelInfo>) -> bool {
    forall|i: int, j: int| 0 <= i < j < s.len() ==> model_order(#[trigger] s[i], #[trigger] s[j]) <= 0
}

/// In a sorted model list every Qwen model (provider `Qwen`, or `qwen` in its id)
/// comes before every other model; within each of the two groups providers come
/// in text order, and within a provider names do.
pub proof fn law_sorted_models_qwen_first(s: Seq<ModelInfo>, i: int, j: int)
    requires
        models_sorted(s),
        0 <= i < j < s.len(),
    ensures
        (s[j].provider@ == "Qwen"@ || contains_seq(s[j].id@, "qwen"@)) ==> (s[i].provider@ == "Qwen"@ || contains_seq(
            s[i].id@,
            "qwen"@,
        )),
        is_qwen(s[i]) == is_qwen(s[j]) ==> text_order(s[i].provider@, s[j].provider@) <= 0,
        (is_qwen(s[i]) == is_qwen(s[j]) && s[i].provider@ == s[j].provider@) ==> text_order(s[i].name@, s[j].name@)
            <= 0,
{
    assert(model_order(s[i], s[j]) <= 0);
    lemma_text_order_zero(s[i].provider@, s[j].provider@);
}

/// The models of the same rank as `m` (neither before nor after it).
pub open spec fn same_rank_as(m: ModelInfo) -> spec_fn(ModelInfo) -> bool {
    |y: ModelInfo| model_order(y, m) == 0
}

/// Sorts the model list (see `model_order`): the same models come out, in order,
/// and models of the same rank keep the order they came in.
pub fn sort_models(models: Vec<ModelInfo>) -> (r: Vec<ModelInfo>)
    ensures
        models_sorted(r@),
        r@.to_multiset() == models@.to_multiset(),
        forall|m: ModelInfo| #[trigger] r@.filter(same_rank_as(m)) == models@.filter(same_rank_as(m)),
{
    broadcast use vstd::seq_lib::to_multiset_insert, vstd::seq_lib::to_multiset_remove, vstd::seq_lib::group_to_multiset_ensures, vstd::multiset::group_multiset_axioms, vstd::multiset::lemma_multiset_empty_len;
    let mut rest = models;
    let mut out: Vec<ModelInfo> = Vec::new();
    let ghost input = rest@;
    proof {
        assert(out@.to_multiset().len() == 0);
        assert(out@.to_multiset() =~= vstd::multiset::Multiset::empty());
        assert(out@.to_multiset().add(rest@.to_multiset()) =~= input.to_multiset());
        assert forall|m: ModelInfo| #[trigger] out@.filter(same_rank_as(m)) + rest@.filter(same_rank_as(m))
            == input.filter(same_rank_as(m)) by {
            reveal(Seq::filter);
            assert(out@.filter(same_rank_as(m)) =~= Seq::<ModelInfo>::empty());
            assert(out@.filter(same_rank_as(m)) + rest@.filter(same_rank_as(m)) =~= input.filter(same_rank_as(m)));
        }
    }
    while rest.len() > 0
        invariant
            models_sorted(out@),
            out@.to_multiset().add(rest@.to_multiset()) == input.to_multiset(),
            forall|m: ModelInfo| #[trigger] out@.filter(same_rank_as(m)) + rest@.filter(same_rank_as(m))
                == input.filter(same_rank_as(m)),
        decreases rest@.len(),
    {
        let ghost before_rest = rest@;
        let ghost before_out = out@;
        let x = rest.remove(0);
        let mut j = out.len();
        while j > 0 && compare_models(&x, &out[j - 1]) < 0
            invariant
                j <= out@.len(),
                out@ == before_out,
                forall|k: int| j <= k < out@.len() ==> model_order(x, #[trigger] out@[k]) < 0,
            decreases j,
        {
            j = j - 1;
        }
        proof {
            if j > 0 {
                lemma_model_order_flip(x, out@[j - 1]);
            }
        }
        out.insert(j, x);
        proof {
            assert(out@ == before_out.insert(j as int, x));
            assert forall|a: int, b: int| 0 <= a < b < out@.len() implies model_order(#[trigger] out@[a], #[trigger] out@[b])
                <= 0 by {
                if b < j {
                    assert(out@[a] == before_out[a] && out@[b] == before_out[b]);
                } else if b == j {
                    assert(out@[a] == before_out[a]);
                    if a < j - 1 {
                        lemma_model_order_trans(before_out[a], before_out[j - 1], x);
                    }
                } else if a == j {
                    assert(out@[b] == before_out[b - 1]);
                } else if a < j {
                    assert(out@[a] == before_out[a] && out@[b] == before_out[b - 1]);
                } else {
                    assert(out@[a] == before_out[a - 1] && out@[b] == before_out[b - 1]);
                }
            }
            assert(before_rest[0] == x);
            assert(rest@ == before_rest.remove(0));
            vstd::seq_lib::to_multiset_insert(before_out, j as int, x);
            vstd::seq_lib::to_multiset_remove(before_rest, 0);
            assert(out@.to_multiset() == before_out.to_multiset().insert(x));
            assert(rest@.to_multiset() == before_rest.to_multiset().remove(x));
            assert(before_rest.contains(x));
            vstd::seq_lib::to_multiset_contains(before_rest, x);
            assert(before_rest.to_multiset().count(x) > 0);
            assert(out@.to_multiset().add(rest@.to_multiset()) =~= before_out.to_multiset().add(before_rest.to_multiset()));
            let front = before_out.take(j as int);
            let back = before_out.skip(j as int);
            assert(before_out =~= front + back);
            assert(out@ =~= front + (seq![x] + back));
            assert(before_rest =~= seq![x] + rest@);
            assert forall|m: ModelInfo| #[trigger] out@.filter(same_rank_as(m)) + rest@.filter(same_rank_as(m))
                == input.filter(same_rank_as(m)) by {
                let p = same_rank_as(m);
                assert(before_out.filter(p) + before_rest.filter(p) == input.filter(p));
                Seq::filter_distributes_over_add(front, back, p);
                Seq::filter_distributes_over_add(front, seq![x] + back, p);
                back.lemma_filter_prepend(x, p);
                rest@.lemma_filter_prepend(x, p);
                if p(x) {
                    assert forall|k: int| 0 <= k < back.len() implies !p(#[trigger] back[k]) by {
                        assert(back[k] == before_out[j + k]);
                        assert(model_order(x, before_out[j + k]) < 0);
                        if p(back[k]) {
                            lemma_same_rank(x, back[k], m);
                        }
                    }
                    assert(back.all(|y: ModelInfo| !p(y)));
                    back.lemma_all_neg_filter_empty(p);
                    assert(back.filter(p) =~= Seq::<ModelInfo>::empty());
                    assert(out@.filter(p) + rest@.filter(p) =~= before_out.filter(p) + before_rest.filter(p));
                } else {
                    assert(out@.filter(p) + rest@.filter(p) =~= before_out.filter(p) + before_rest.filter(p));
                }
            }
        }
    }
    proof {
        assert forall|m: ModelInfo| #[trigger] out@.filter(same_rank_as(m)) == input.filter(same_rank_as(m)) by {
            reveal(Seq::filter);
            assert(rest@.filter(same_rank_as(m)) =~= Seq::<ModelInfo>::empty());
            assert(out@.filter(same_rank_as(m)) + rest@.filter(same_rank_as(m)) =~= out@.filter(same_rank_as(m)));
        }
    }
    out
}

/// The address the web server listens on: every interface when network access
/// is allowed, else only the loopback interface.
pub fn bind_address(allow_network: bool, port: u16) -> (r: String)
    ensures
        r@ == (if allow_network { "0.0.0.0:"@ } else { "127.0.0.1:"@ }) + crate::text::decimal(port as nat),
{
    let mut r = if allow_network { String::from_str("0.0.0.0:") } else { String::from_str("127.0.0.1:") };
    crate::text::append_decimal(&mut r, port as u64);
    r
}

/// Whether a pending tool approval is kept: it expires once it is 300 seconds old.
pub fn approval_kept(age_seconds: u64) -> (r: bool)
    ensures
        r == (age_seconds < 300),
{
    age_seconds < 300
}

} // verus!
