//! Checking plugin input and output against a plugin's JSON schema, with the
//! schema and the data held as JSON text.

use vstd::prelude::*;

verus! {

/// The name given to what `serde_json` reports when a text is not JSON (`None`
/// when it parses).
pub uninterp spec fn json_error(text: Seq<char>) -> Option<Seq<char>>;

/// The name given to whether `jsonschema::validator_for` compiles a schema.
pub uninterp spec fn schema_compiles(schema: Seq<char>) -> bool;

/// The name given to `jsonschema`'s verdict on data against a schema.
pub uninterp spec fn schema_accepts(schema: Seq<char>, data: Seq<char>) -> bool;

/// Parses JSON text with `serde_json::from_str`. Claimed: the error text (if
/// any) is a function of the text, named `json_error`.
#[verifier::external_body]
fn parse_error(text: &str) -> (r: Option<String>)
    ensures
        crate::text::opt_chars(r) == json_error(text@),
{
    serde_json::from_str::<serde_json::Value>(text).err().map(|e| e.to_string())
}

/// Compiles a schema with `jsonschema::validator_for` and gives its error text.
/// Claimed: whether it compiles is a function of the schema, named
/// `schema_compiles`; the error text is left unsaid.
#[verifier::external_body]
fn schema_build_error(schema: &str) -> (r: Option<String>)
    requires
        json_error(schema@) is None,
    ensures
        (r is None) == schema_compiles(schema@),
{
    let v: serde_json::Value = serde_json::from_str(schema).unwrap_or(serde_json::Value::Null);
    jsonschema::validator_for(&v).err().map(|e| e.to_string())
}

/// Checks data with `Validator::is_valid`. Claimed: the verdict is a function of
/// the schema and the data, named `schema_accepts`.
#[verifier::external_body]
fn accepts(schema: &str, data: &str) -> (r: bool)
    requires
        json_error(schema@) is None,
        json_error(data@) is None,
        schema_compiles(schema@),
    ensures
        r == schema_accepts(schema@, data@),
{
    let s: serde_json::Value = serde_json::from_str(schema).unwrap_or(serde_json::Value::Null);
    let d: serde_json::Value = serde_json::from_str(data).unwrap_or(serde_json::Value::Null);
    jsonschema::validator_for(&s).map(|v| v.is_valid(&d)).unwrap_or(false)
}

/// The name given to the violations `Validator::iter_errors` lists for data
/// against a schema, each as its instance path and its message, in its order.
pub uninterp spec fn schema_violations(schema: Seq<char>, data: Seq<char>) -> Seq<(Seq<char>, Seq<char>)>;

/// Lists violations with `Validator::iter_errors`, each as its instance path
/// and its message. Claimed: the list is a function of the schema and the data
/// (named `schema_violations`), and it is empty exactly when `Validator::is_valid`
/// accepts the data.
#[verifier::external_body]
fn violations(schema: &str, data: &str) -> (r: Vec<(String, String)>)
    requires
        json_error(schema@) is None,
        json_error(data@) is None,
        schema_compiles(schema@),
    ensures
        pair_views(r@) == schema_violations(schema@, data@),
        (r@.len() == 0) == schema_accepts(schema@, data@),
{
    let s: serde_json::Value = serde_json::from_str(schema).unwrap_or(serde_json::Value::Null);
    let d: serde_json::Value = serde_json::from_str(data).unwrap_or(serde_json::Value::Null);
    match jsonschema::validator_for(&s) {
        Ok(v) => v.iter_errors(&d).map(|e| (e.instance_path().to_string(), e.to_string())).collect(),
        Err(_) => Vec::new(),
    }
}

/// The text of each violation: its path, `": "`, then its message.
pub open spec fn violation_lines(pairs: Seq<(Seq<char>, Seq<char>)>) -> Seq<Seq<char>> {
    pairs.map_values(|p: (Seq<char>, Seq<char>)| p.0 + ": "@ + p.1)
}

/// The views of a list of string pairs.
pub open spec fn pair_views(pairs: Seq<(String, String)>) -> Seq<(Seq<char>, Seq<char>)> {
    pairs.map_values(|p: (String, String)| (p.0@, p.1@))
}

/// The texts of violations given as (path, message) pairs (see `violation_lines`).
pub fn violation_messages(pairs: &Vec<(String, String)>) -> (r: Vec<String>)
    ensures
        r@.map_values(|s: String| s@) == violation_lines(pair_views(pairs@)),
{
    let mut r: Vec<String> = Vec::new();
    let mut i: usize = 0;
    while i < pairs.len()
        invariant
            i <= pairs@.len(),
            r@.map_values(|s: String| s@) == violation_lines(pair_views(pairs@.take(i as int))),
        decreases pairs@.len() - i,
    {
        let ghost before = r@;
        let mut line = pairs[i].0.clone();
        line.append(": ");
        line.append(pairs[i].1.as_str());
        r.push(line);
        assert(pair_views(pairs@.take(i + 1)) =~= pair_views(pairs@.take(i as int)).push((pairs@[i as int].0@, pairs@[i as int].1@)));
        assert(r@.map_values(|s: String| s@) =~= before.map_values(|s: String| s@).push(line@));
        i = i + 1;
    }
    assert(pairs@.take(pairs@.len() as int) =~= pairs@);
    r
}

/// Whether a text is JSON.
pub fn is_json(text: &str) -> (r: bool)
    ensures
        r == (json_error(text@) is None),
{
    parse_error(text).is_none()
}

/// A compiled JSON schema.
pub struct SchemaValidator {
    schema: String,
}

impl SchemaValidator {
    /// The schema's JSON text.
    pub closed spec fn schema_text(&self) -> Seq<char> {
        self.schema@
    }

    /// Whether the validator holds a schema that parses and compiles.
    pub closed spec fn wf(&self) -> bool {
        json_error(self.schema@) is None && schema_compiles(self.schema@)
    }

    /// Compiles a schema; the error says why it did not compile.
    pub fn new(schema: &str) -> (r: Result<Self, String>)
        ensures
            match r {
                Ok(v) => v.wf() && v.schema_text() == schema@,
                Err(e) => match json_error(schema@) {
                    Some(j) => e@ == "Failed to compile JSON schema: "@ + j,
                    None => !schema_compiles(schema@) && crate::text::has_prefix(e@, "Failed to compile JSON schema: "@),
                },
            },
            (json_error(schema@) is None && schema_compiles(schema@)) <==> r is Ok,
    {
        match parse_error(schema) {
            Some(e) => {
                let mut m = String::from_str("Failed to compile JSON schema: ");
                m.append(e.as_str());
                return Err(m);
            },
            None => {},
        }
        match schema_build_error(schema) {
            Some(e) => {
                let mut m = String::from_str("Failed to compile JSON schema: ");
                let ghost head = m@;
                m.append(e.as_str());
                assert(m@.subrange(0, head.len() as int) =~= head);
                Err(m)
            },
            None => Ok(SchemaValidator { schema: String::from_str(schema) }),
        }
    }

    /// Checks JSON data against the schema: `Ok` when it is valid, else the list
    /// of violations.
    pub fn validate(&self, data: &str) -> (r: Result<(), Vec<String>>)
        requires
            self.wf(),
            json_error(data@) is None,
        ensures
            schema_accepts(self.schema_text(), data@) <==> r is Ok,
            r matches Err(v) ==> v@.len() > 0 && v@.map_values(|s: String| s@) == violation_lines(
                schema_violations(self.schema_text(), data@),
            ),
    {
        if accepts(self.schema.as_str(), data) {
            Ok(())
        } else {
            let pairs = violations(self.schema.as_str(), data);
            let v = violation_messages(&pairs);
            assert(violation_lines(pair_views(pairs@)) == v@.map_values(|s: String| s@));
            Err(v)
        }
    }

    /// Whether the data, given as JSON text, is JSON that the schema accepts.
    pub fn is_valid(&self, data: &str) -> (r: bool)
        requires
            self.wf(),
        ensures
            r == (json_error(data@) is None && schema_accepts(self.schema_text(), data@)),
    {
        is_json(data) && accepts(self.schema.as_str(), data)
    }

    /// Checks data given as JSON text: `None` when the text is not JSON, else what
    /// `validate` answers.
    pub fn validate_text(&self, data: &str) -> (r: Option<Result<(), Vec<String>>>)
        requires
            self.wf(),
        ensures
            (json_error(data@) is None) <==> r is Some,
            r matches Some(res) ==> ((schema_accepts(self.schema_text(), data@) <==> res is Ok) && (res matches Err(
                v,
            ) ==> v@.len() > 0 && v@.map_values(|s: String| s@) == violation_lines(
                schema_violations(self.schema_text(), data@),
            ))),
    {
        if is_json(data) {
            Some(self.validate(data))
        } else {
            None
        }
    }
}

} // verus!
