//! The Magic 8-Ball: answers loaded once from a data file, drawn at random,
//! and checked before they are saved again.
use vstd::prelude::*;
use crate::text::{to_owned_string, push_str, str_eq, write_decimal, decimal_spec, contains, contains_spec, join_path,
    join_path_spec};
use crate::random::random_below;

verus! {

/// One answer and its category ("positive", "neutral" or "negative").
#[derive(Debug, Clone)]
pub struct EightballResponse {
    pub text: String,
    pub category: String,
}

/// The contents of the data file.
#[derive(Debug)]
pub struct EightballData {
    pub responses: Vec<EightballResponse>,
}

/// How loading the answers went.
#[derive(Debug, Clone)]
pub enum EightballStatus {
    /// Loaded, with the number of answers.
    Available(usize),
    /// The data file is missing; the path is given.
    FileNotFound(String),
    /// The data file is not valid JSON.
    ParseError(String),
    /// The data is unusable, or the answers were loaded before.
    ValidationError(String),
}

impl PartialEq for EightballStatus {
    fn eq(&self, other: &Self) -> (r: bool) {
        match (self, other) {
            (EightballStatus::Available(a), EightballStatus::Available(b)) => *a == *b,
            (EightballStatus::FileNotFound(a), EightballStatus::FileNotFound(b)) => str_eq(a.as_str(), b.as_str()),
            (EightballStatus::ParseError(a), EightballStatus::ParseError(b)) => str_eq(a.as_str(), b.as_str()),
            (EightballStatus::ValidationError(a), EightballStatus::ValidationError(b)) => str_eq(a.as_str(), b.as_str()),
            _ => false,
        }
    }
}

impl vstd::std_specs::cmp::PartialEqSpecImpl for EightballStatus {
    open spec fn obeys_eq_spec() -> bool {
        true
    }

    open spec fn eq_spec(&self, other: &Self) -> bool {
        match (self, other) {
            (EightballStatus::Available(a), EightballStatus::Available(b)) => a == b,
            (EightballStatus::FileNotFound(a), EightballStatus::FileNotFound(b)) => a@ == b@,
            (EightballStatus::ParseError(a), EightballStatus::ParseError(b)) => a@ == b@,
            (EightballStatus::ValidationError(a), EightballStatus::ValidationError(b)) => a@ == b@,
            _ => false,
        }
    }
}

/// The answers, once loaded; they are set at most once.
#[derive(Debug)]
pub struct EightballStore {
    pub responses: Option<Vec<EightballResponse>>,
}

impl EightballStore {
    /// A store with nothing loaded.
    pub fn new() -> (s: Self)
        ensures
            s.responses is None,
    {
        EightballStore { responses: None }
    }
}

/// Location of the answers file inside a data directory.
pub fn responses_path(data_dir: &str) -> (p: String)
    ensures
        p@ == join_path_spec(data_dir@, "8ball_responses.json"@),
{
    join_path(data_dir, "8ball_responses.json")
}

/// The answers of a parsed data file; a file without answers is refused.
pub fn check_loaded_responses(data: EightballData) -> (r: Result<Vec<EightballResponse>, String>)
    ensures
        data.responses@.len() > 0 ==> r == Ok::<Vec<EightballResponse>, String>(data.responses),
        data.responses@.len() == 0 ==> (r matches Err(e) && e@ == "No responses found in data file"@),
{
    if data.responses.len() == 0 {
        return Err(to_owned_string("No responses found in data file"));
    }
    Ok(data.responses)
}

/// Stores the answers read from `path` (or the reason they could not be
/// read) and says how it went. Answers arrive only once: a second set is
/// refused. A failure that mentions "No such file" is a missing file, one
/// that mentions "parse" a parse error, any other a validation error.
pub fn initialize(store: &mut EightballStore, path: &str, loaded: Result<Vec<EightballResponse>, String>) -> (st: EightballStatus)
    ensures
        match loaded {
            Ok(v) => match old(store).responses {
                Some(_) => final(store).responses == old(store).responses
                    && (st matches EightballStatus::ValidationError(m) && m@ == "Already initialized"@),
                None => final(store).responses == Some(v) && st == EightballStatus::Available(v@.len() as usize),
            },
            Err(e) => final(store).responses == old(store).responses && if contains_spec(e@, "No such file"@) {
                st matches EightballStatus::FileNotFound(p) && p@ == path@
            } else if contains_spec(e@, "parse"@) {
                st matches EightballStatus::ParseError(m) && m@ == e@
            } else {
                st matches EightballStatus::ValidationError(m) && m@ == e@
            },
        },
{
    match loaded {
        Ok(responses) => {
            let count = responses.len();
            if store.responses.is_some() {
                EightballStatus::ValidationError(to_owned_string("Already initialized"))
            } else {
                store.responses = Some(responses);
                EightballStatus::Available(count)
            }
        },
        Err(e) => {
            if contains(e.as_str(), "No such file") {
                EightballStatus::FileNotFound(to_owned_string(path))
            } else if contains(e.as_str(), "parse") {
                EightballStatus::ParseError(e)
            } else {
                EightballStatus::ValidationError(e)
            }
        },
    }
}

/// Whether answers are loaded.
pub fn is_available(store: &EightballStore) -> (r: bool)
    ensures
        r == store.responses is Some,
{
    store.responses.is_some()
}

/// A randomly drawn answer; `None` when none are loaded.
pub fn ask(store: &EightballStore) -> (r: Option<&str>)
    ensures
        match store.responses {
            Some(v) => if v@.len() > 0 {
                r matches Some(t) && exists|i: int| 0 <= i < v@.len() && t@ == #[trigger] v@[i].text@
            } else {
                r is None
            },
            None => r is None,
        },
{
    match &store.responses {
        Some(v) => {
            if v.len() == 0 {
                return None;
            }
            let i = random_below(v.len());
            let t = v[i].text.as_str();
            assert(t@ == v@[i as int].text@);
            Some(t)
        },
        None => None,
    }
}

/// All loaded answers.
pub fn get_all_responses(store: &EightballStore) -> (r: Option<&[EightballResponse]>)
    ensures
        match store.responses {
            Some(v) => r matches Some(s) && s@ == v@,
            None => r is None,
        },
{
    match &store.responses {
        Some(v) => Some(v.as_slice()),
        None => None,
    }
}

/// The answers of a category, in stored order.
pub open spec fn in_category(s: Seq<EightballResponse>, category: Seq<char>) -> Seq<EightballResponse>
    decreases s.len(),
{
    if s.len() == 0 {
        Seq::empty()
    } else {
        let rest = in_category(s.drop_last(), category);
        if s.last().category@ == category {
            rest.push(s.last())
        } else {
            rest
        }
    }
}

/// The loaded answers of `category`, in stored order; empty when none are loaded.
pub fn get_by_category<'a>(store: &'a EightballStore, category: &str) -> (r: Vec<&'a EightballResponse>)
    ensures
        match store.responses {
            Some(v) => r@.len() == in_category(v@, category@).len() && forall|i: int| 0 <= i < r@.len()
                ==> *#[trigger] r@[i] == in_category(v@, category@)[i],
            None => r@.len() == 0,
        },
{
    let mut out: Vec<&EightballResponse> = Vec::new();
    match &store.responses {
        Some(v) => {
            let n = v.len();
            let mut i: usize = 0;
            while i < n
                invariant
                    i <= n,
                    n == v@.len(),
                    out@.len() == in_category(v@.take(i as int), category@).len(),
                    forall|k: int| 0 <= k < out@.len() ==> *#[trigger] out@[k] == in_category(v@.take(i as int), category@)[k],
                decreases n - i,
            {
                let r = &v[i];
                proof {
                    assert(v@.take(i + 1).drop_last() =~= v@.take(i as int));
                    assert(v@.take(i + 1).last() == v@[i as int]);
                }
                if str_eq(r.category.as_str(), category) {
                    out.push(r);
                }
                i = i + 1;
            }
            proof {
                assert(v@.take(n as int) =~= v@);
            }
        },
        None => {},
    }
    out
}

/// The first fault of a list of answers about to be saved: an empty list,
/// or an answer whose category is not positive, neutral or negative.
pub open spec fn save_error_from(s: Seq<EightballResponse>, i: int) -> Option<Seq<char>>
    decreases s.len() - i,
{
    if i < 0 || i >= s.len() {
        None
    } else {
        let c = s[i].category@;
        if c != "positive"@ && c != "neutral"@ && c != "negative"@ {
            Some("Invalid category '"@ + c + "' at index "@ + decimal_spec(i as nat)
                + ". Must be 'positive', 'neutral', or 'negative'"@)
        } else {
            save_error_from(s, i + 1)
        }
    }
}

/// Checks answers before they are written back: the list must not be empty
/// and every category must be positive, neutral or negative.
pub fn check_responses_for_save(responses: &Vec<EightballResponse>) -> (r: Result<(), String>)
    ensures
        responses@.len() == 0 ==> (r matches Err(e) && e@ == "Cannot save empty response list"@),
        responses@.len() > 0 ==> match save_error_from(responses@, 0) {
            Some(m) => r matches Err(e) && e@ == m,
            None => r is Ok,
        },
{
    let n = responses.len();
    if n == 0 {
        return Err(to_owned_string("Cannot save empty response list"));
    }
    let mut i: usize = 0;
    while i < n
        invariant
            i <= n,
            n == responses@.len(),
            save_error_from(responses@, 0) == save_error_from(responses@, i as int),
        decreases n - i,
    {
        let cat = responses[i].category.as_str();
        if !str_eq(cat, "positive") && !str_eq(cat, "neutral") && !str_eq(cat, "negative") {
            let mut m = to_owned_string("Invalid category '");
            push_str(&mut m, cat);
            push_str(&mut m, "' at index ");
            write_decimal(&mut m, i as u64);
            push_str(&mut m, ". Must be 'positive', 'neutral', or 'negative'");
            return Err(m);
        }
        i = i + 1;
    }
    Ok(())
}

} // verus!
