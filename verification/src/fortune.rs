//! Unix-style fortunes: loaded once from a data file and drawn at random.
use vstd::prelude::*;
use crate::text::{to_owned_string, push_str};
use crate::random::random_below;

verus! {

/// The contents of the fortunes file.
#[derive(Debug, Clone)]
pub struct FortuneData {
    pub fortunes: Vec<String>,
}

/// How loading the fortunes went.
#[derive(Debug, Clone)]
pub enum FortuneStatus {
    /// Loaded, with the number of fortunes.
    Ready(usize),
    /// Missing or unusable file, with the reason.
    Disabled(String),
}

/// The outcome of the first load, kept for the life of the process. A store
/// that loaded fortunes holds at least one.
#[derive(Debug)]
pub struct FortuneStore {
    loaded: Option<Result<Vec<String>, String>>,
}

impl View for FortuneStore {
    /// The load outcome kept, as values; `None` before the first load.
    type V = Option<Result<Seq<String>, Seq<char>>>;

    closed spec fn view(&self) -> Self::V {
        match self.loaded {
            Some(l) => Some(kept_view(l)),
            None => None,
        }
    }
}

impl FortuneStore {
    /// Loaded fortunes are never an empty list.
    #[verifier::type_invariant]
    spec fn loaded_list_not_empty(&self) -> bool {
        self.loaded matches Some(Ok(v)) ==> v@.len() > 0
    }

    /// A store that has not loaded yet.
    pub fn new() -> (s: Self)
        ensures
            s@ is None,
    {
        FortuneStore { loaded: None }
    }
}

/// The number of fortunes a load outcome holds; 0 when none are loaded.
pub open spec fn loaded_count(l: Option<Result<Seq<String>, Seq<char>>>) -> nat {
    match l {
        Some(Ok(v)) => v.len(),
        _ => 0,
    }
}

/// The fortunes of a file read from `path`; a file without fortunes is refused.
pub fn check_fortunes(path: &str, data: FortuneData) -> (r: Result<Vec<String>, String>)
    ensures
        data.fortunes@.len() > 0 ==> r == Ok::<Vec<String>, String>(data.fortunes),
        data.fortunes@.len() == 0 ==> (r matches Err(e) && e@ == path@ + " contains no fortunes"@),
{
    if data.fortunes.len() == 0 {
        let mut e = to_owned_string(path);
        push_str(&mut e, " contains no fortunes");
        return Err(e);
    }
    Ok(data.fortunes)
}

/// What loading a fortunes file read from `path` gives: its fortunes, the
/// refusal of a file without any, or the error of reading it.
pub open spec fn loaded_list(path: Seq<char>, read: Result<Seq<String>, Seq<char>>) -> Result<Seq<String>, Seq<char>> {
    match read {
        Ok(v) => if v.len() > 0 { Ok(v) } else { Err(path + " contains no fortunes"@) },
        Err(e) => Err(e),
    }
}

/// The file contents or read error, as values.
pub open spec fn read_view(read: Result<FortuneData, String>) -> Result<Seq<String>, Seq<char>> {
    match read {
        Ok(d) => Ok(d.fortunes@),
        Err(e) => Err(e@),
    }
}

/// The load outcome a store keeps, as values.
pub open spec fn kept_view(loaded: Result<Vec<String>, String>) -> Result<Seq<String>, Seq<char>> {
    match loaded {
        Ok(v) => Ok(v@),
        Err(e) => Err(e@),
    }
}

/// Loads the fortunes file read from `path` (`read`: its contents, or why it
/// could not be read or parsed), the first time only: later loads are
/// ignored. Reports the outcome kept.
pub fn initialize(store: &mut FortuneStore, path: &str, read: Result<FortuneData, String>) -> (st: FortuneStatus)
    ensures
        match old(store)@ {
            Some(l) => final(store)@ == Some(l),
            None => final(store)@ == Some(loaded_list(path@, read_view(read))),
        },
        match final(store)@ {
            Some(Ok(v)) => st matches FortuneStatus::Ready(n) && n == v.len(),
            Some(Err(e)) => st matches FortuneStatus::Disabled(m) && m@ == e,
            None => false,
        },
{
    proof {
        use_type_invariant(&*store);
    }
    if store.loaded.is_none() {
        let loaded = match read {
            Ok(data) => check_fortunes(path, data),
            Err(e) => Err(e),
        };
        store.loaded = Some(loaded);
    }
    match &store.loaded {
        Some(Ok(v)) => FortuneStatus::Ready(v.len()),
        Some(Err(e)) => FortuneStatus::Disabled(e.clone()),
        None => FortuneStatus::Disabled(String::new()),
    }
}

/// Whether fortunes are loaded.
pub fn is_available(store: &FortuneStore) -> (r: bool)
    ensures
        r == (store@ matches Some(Ok(_))),
{
    match &store.loaded {
        Some(Ok(_)) => true,
        _ => false,
    }
}

/// The number of loaded fortunes; 0 when none are. Fortunes are available
/// exactly when there is at least one.
pub fn fortune_count(store: &FortuneStore) -> (n: usize)
    ensures
        n == loaded_count(store@),
        n > 0 <==> (store@ matches Some(Ok(_))),
{
    proof {
        use_type_invariant(store);
    }
    match &store.loaded {
        Some(Ok(v)) => v.len(),
        _ => 0,
    }
}

/// A randomly drawn fortune; `None` when none are loaded.
pub fn random_fortune(store: &FortuneStore) -> (r: Option<&str>)
    ensures
        match store@ {
            Some(Ok(v)) => r matches Some(t) && exists|i: int| 0 <= i < v.len() && t@ == #[trigger] v[i]@,
            _ => r is None,
        },
{
    proof {
        use_type_invariant(store);
    }
    match &store.loaded {
        Some(Ok(v)) => {
            let i = random_below(v.len());
            let t = v[i].as_str();
            proof {
                let w = match store@ {
                    Some(Ok(w)) => w,
                    _ => Seq::empty(),
                };
                assert(w == v@);
                assert(t@ == w[i as int]@);
            }
            Some(t)
        },
        _ => None,
    }
}

/// A copy of all loaded fortunes.
pub fn get_all_fortunes(store: &FortuneStore) -> (r: Option<Vec<String>>)
    ensures
        match store@ {
            Some(Ok(v)) => r matches Some(c) && c@ == v,
            _ => r is None,
        },
{
    match &store.loaded {
        Some(Ok(v)) => {
            let mut c: Vec<String> = Vec::new();
            let n = v.len();
            let mut i: usize = 0;
            while i < n
                invariant
                    i <= n,
                    n == v@.len(),
                    c@ == v@.take(i as int),
                decreases n - i,
            {
                c.push(v[i].clone());
                i = i + 1;
                proof {
                    assert(c@ =~= v@.take(i as int));
                }
            }
            proof {
                assert(v@.take(n as int) =~= v@);
            }
            Some(c)
        },
        _ => None,
    }
}

/// Fortunes about to be saved must not be an empty list.
pub fn check_fortunes_for_save(fortunes: &Vec<String>) -> (r: Result<(), String>)
    ensures
        fortunes@.len() == 0 <==> (r matches Err(e) && e@ == "Cannot save empty fortune list"@),
        fortunes@.len() > 0 <==> r is Ok,
{
    if fortunes.len() == 0 {
        return Err(to_owned_string("Cannot save empty fortune list"));
    }
    Ok(())
}

/// Checks the fortunes file read from `path` again: the number of its
/// fortunes, or why it cannot be used. The fortunes in use stay as they are
/// until the next start.
pub fn reload(path: &str, read: Result<FortuneData, String>) -> (r: Result<usize, String>)
    ensures
        match loaded_list(path@, read_view(read)) {
            Ok(v) => r == Ok::<usize, String>(v.len() as usize),
            Err(e) => r matches Err(m) && m@ == e,
        },
{
    let loaded = match read {
        Ok(data) => check_fortunes(path, data),
        Err(e) => Err(e),
    };
    match loaded {
        Ok(v) => Ok(v.len()),
        Err(e) => Err(e),
    }
}

/// A list that saving accepts (not empty) is loaded back whole, and
/// reloading it reports its length.
pub proof fn lemma_saved_list_reloads(path: Seq<char>, fortunes: Seq<String>)
    requires
        fortunes.len() > 0,
    ensures
        loaded_list(path, Ok(fortunes)) == Ok::<Seq<String>, Seq<char>>(fortunes),
{
}

/// Figures about the loaded fortunes; lengths count characters.
#[derive(Debug, Clone)]
pub struct FortuneStats {
    pub total: usize,
    pub max_length: usize,
    /// The characters of all fortunes together (the mean length is this over `total`).
    pub total_length: usize,
    /// The first five fortunes.
    pub sample: Vec<String>,
    pub available: bool,
}

/// The longest length among `s`, 0 for none.
pub open spec fn max_len(s: Seq<String>) -> nat
    decreases s.len(),
{
    if s.len() == 0 {
        0
    } else {
        let m = max_len(s.drop_last());
        if s.last()@.len() > m { s.last()@.len() } else { m }
    }
}

/// The lengths of `s` added up.
pub open spec fn sum_len(s: Seq<String>) -> nat
    decreases s.len(),
{
    if s.len() == 0 {
        0
    } else {
        sum_len(s.drop_last()) + s.last()@.len()
    }
}

/// Whether the lengths of the loaded fortunes add up within `usize`.
pub open spec fn lengths_fit(store: FortuneStore) -> bool {
    store@ matches Some(Ok(v)) ==> sum_len(v) <= usize::MAX
}

proof fn lemma_sum_len_prefix(s: Seq<String>, i: int)
    requires
        0 <= i <= s.len(),
    ensures
        sum_len(s.take(i)) <= sum_len(s),
    decreases s.len() - i,
{
    if i < s.len() {
        lemma_sum_len_prefix(s, i + 1);
        assert(s.take(i + 1).drop_last() =~= s.take(i));
    } else {
        assert(s.take(i) =~= s);
    }
}

/// The figures of the fortune page: none when nothing is loaded; else the
/// count, the longest length, the total length and the first five fortunes.
pub fn compute_fortune_stats(store: &FortuneStore) -> (r: FortuneStats)
    requires
        lengths_fit(*store),
    ensures
        match store@ {
            Some(Ok(v)) => {
                &&& r.available
                &&& r.total == v.len()
                &&& r.max_length == max_len(v)
                &&& r.total_length == sum_len(v)
                &&& r.sample@ == v.take(if v.len() < 5 { v.len() as int } else { 5 })
            },
            _ => !r.available && r.total == 0 && r.max_length == 0 && r.total_length == 0 && r.sample@.len() == 0,
        },
{
    match &store.loaded {
        Some(Ok(v)) => {
            let n = v.len();
            let mut max_length: usize = 0;
            let mut total_length: usize = 0;
            let mut sample: Vec<String> = Vec::new();
            let mut i: usize = 0;
            while i < n
                invariant
                    i <= n,
                    n == v@.len(),
                    sum_len(v@) <= usize::MAX,
                    max_length == max_len(v@.take(i as int)),
                    total_length == sum_len(v@.take(i as int)),
                    sample@ == v@.take(if i < 5 { i as int } else { 5 }),
                decreases n - i,
            {
                let len = v[i].as_str().unicode_len();
                proof {
                    assert(v@.take(i + 1).drop_last() =~= v@.take(i as int));
                    assert(v@.take(i + 1).last() == v@[i as int]);
                    lemma_sum_len_prefix(v@, i + 1);
                }
                if len > max_length {
                    max_length = len;
                }
                total_length = total_length + len;
                if i < 5 {
                    sample.push(v[i].clone());
                    proof {
                        assert(sample@ =~= v@.take(i + 1));
                    }
                }
                i = i + 1;
            }
            proof {
                assert(v@.take(n as int) =~= v@);
            }
            FortuneStats { total: n, max_length, total_length, sample, available: true }
        },
        _ => FortuneStats { total: 0, max_length: 0, total_length: 0, sample: Vec::new(), available: false },
    }
}

} // verus!
