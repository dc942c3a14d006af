use vstd::prelude::*;

use crate::error::FatalError;
use crate::config::copy_strings;
use crate::text::{strings_view, texts_equal};

verus! {

#[verifier::external_type_specification]
#[verifier::external_body]
pub struct ExIndexError(tame_index::Error);

/// The versions that a registry index file lists, in its order, or `None`
/// where the file does not parse.
pub uninterp spec fn index_versions(body: Seq<u8>) -> Option<Seq<Seq<char>>>;

/// Relies on `tame_index::IndexKrate::from_slice`: it parses the JSON
/// lines of an index file, fails on a file with no version, and keeps the
/// versions in the file's order.
#[verifier::external_body]
fn parse_index_versions(body: &[u8]) -> (r: Result<Vec<String>, tame_index::Error>)
    ensures
        match r {
            Ok(v) => index_versions(body@) == Some(strings_view(v@)) && v@.len() > 0,
            Err(_) => index_versions(body@) is None,
        },
{
    let krate = tame_index::IndexKrate::from_slice(body)?;
    Ok(krate.versions.iter().map(|v| v.version.to_string()).collect())
}

/// What the registry answered to a request for one crate's index entry.
#[derive(Debug, Clone)]
pub enum RegistryResponse {
    /// The full entry, with the validation token that came with it.
    Entry { etag: Option<String>, body: Vec<u8> },
    /// The entry has not changed since the token sent.
    NotModified,
    /// The registry has no such crate.
    NotFound,
    /// Anything else: the lookup of this crate failed.
    Failed(String),
}

impl RegistryResponse {
    /// Reads an HTTP answer: 200 carries the entry, 304 means unchanged,
    /// 404 and 410 mean no such crate; any other status is a failure.
    pub fn from_status(status: u16, etag: Option<String>, body: Vec<u8>) -> (r: RegistryResponse)
        ensures
            status == 200 ==> r == (RegistryResponse::Entry { etag, body }),
            status == 304 ==> r is NotModified,
            (status == 404 || status == 410) ==> r is NotFound,
            !(status == 200 || status == 304 || status == 404 || status == 410) ==> r is Failed,
    {
        if status == 200 {
            RegistryResponse::Entry { etag, body }
        } else if status == 304 {
            RegistryResponse::NotModified
        } else if status == 404 || status == 410 {
            RegistryResponse::NotFound
        } else {
            RegistryResponse::Failed(String::from_str("unexpected status from the registry"))
        }
    }
}

/// What a query needs next.
#[derive(Debug, Clone)]
pub enum Lookup {
    /// The entry is known in this run: `None` when the crate does not exist.
    Cached(Option<Vec<String>>),
    /// The entry must be requested, sending this validation token if any.
    Fetch(Option<String>),
}

/// One crate's entry as seen in this run.
#[derive(Debug, Clone)]
pub struct CachedKrate {
    pub name: String,
    pub versions: Option<Vec<String>>,
}

/// The last full entry received for a crate, with its validation token.
#[derive(Debug, Clone)]
pub struct StoredEntry {
    pub name: String,
    pub etag: Option<String>,
    pub versions: Vec<String>,
}

/// Access to one registry's index: entries looked up in this run are
/// reused without a new request, and a request for a crate carries the
/// token of the last entry received for it.
#[derive(Debug, Clone)]
pub struct RegistryIndex {
    registry_name: String,
    memo: Vec<CachedKrate>,
    stored: Vec<StoredEntry>,
}

pub open spec fn entry_view(e: Option<Vec<String>>) -> Option<Seq<Seq<char>>> {
    match e {
        Some(v) => Some(strings_view(v@)),
        None => None,
    }
}

pub open spec fn etag_view(e: Option<String>) -> Option<Seq<char>> {
    match e {
        Some(s) => Some(s@),
        None => None,
    }
}

/// The model of an index: the entry of each crate looked up in this run,
/// and the token and content last received for each crate.
pub ghost struct IndexView {
    pub registry: Seq<char>,
    pub memo: Map<Seq<char>, Option<Seq<Seq<char>>>>,
    pub stored: Map<Seq<char>, (Option<Seq<char>>, Seq<Seq<char>>)>,
}

pub open spec fn memo_map(m: Seq<CachedKrate>) -> Map<Seq<char>, Option<Seq<Seq<char>>>>
    decreases m.len(),
{
    if m.len() == 0 {
        Map::empty()
    } else {
        memo_map(m.drop_last()).insert(m.last().name@, entry_view(m.last().versions))
    }
}

pub open spec fn stored_map(m: Seq<StoredEntry>) -> Map<Seq<char>, (Option<Seq<char>>, Seq<Seq<char>>)>
    decreases m.len(),
{
    if m.len() == 0 {
        Map::empty()
    } else {
        stored_map(m.drop_last()).insert(
            m.last().name@,
            (etag_view(m.last().etag), strings_view(m.last().versions@)),
        )
    }
}

impl View for RegistryIndex {
    type V = IndexView;

    closed spec fn view(&self) -> IndexView {
        IndexView {
            registry: self.registry_name@,
            memo: memo_map(self.memo@),
            stored: stored_map(self.stored@),
        }
    }
}

/// What a query for `name` needs: the entry when this run has it, else a
/// request carrying the token last received for `name`, if any.
pub open spec fn lookup_spec(s: IndexView, name: Seq<char>) -> Result<
    Option<Seq<Seq<char>>>,
    Option<Seq<char>>,
> {
    if s.memo.contains_key(name) {
        Ok(s.memo[name])
    } else if s.stored.contains_key(name) {
        Err(s.stored[name].0)
    } else {
        Err(None)
    }
}

/// The new state and result of recording the registry's answer for
/// `name`; `None` where the answer is a failure, which changes nothing.
/// A full entry replaces the stored token and content; "not modified"
/// reuses the stored content as it is.
pub open spec fn recorded(s: IndexView, name: Seq<char>, resp: RegistryResponse) -> Option<
    (IndexView, Option<Seq<Seq<char>>>),
> {
    match resp {
        RegistryResponse::Entry { etag, body } => match index_versions(body@) {
            None => None,
            Some(vs) => Some(
                (
                    IndexView {
                        memo: s.memo.insert(name, Some(vs)),
                        stored: s.stored.insert(name, (etag_view(etag), vs)),
                        ..s
                    },
                    Some(vs),
                ),
            ),
        },
        RegistryResponse::NotModified => if s.stored.contains_key(name) {
            let vs = s.stored[name].1;
            Some((IndexView { memo: s.memo.insert(name, Some(vs)), ..s }, Some(vs)))
        } else {
            None
        },
        RegistryResponse::NotFound => Some(
            (IndexView { memo: s.memo.insert(name, None), ..s }, None),
        ),
        RegistryResponse::Failed(_) => None,
    }
}

proof fn lemma_memo_suffix(m: Seq<CachedKrate>, j: int, k: Seq<char>)
    requires
        0 <= j <= m.len(),
        forall|i: int| j <= i < m.len() ==> (#[trigger] m[i]).name@ != k,
    ensures
        memo_map(m).contains_key(k) == memo_map(m.subrange(0, j)).contains_key(k),
        memo_map(m).contains_key(k) ==> memo_map(m)[k] == memo_map(m.subrange(0, j))[k],
    decreases m.len() - j,
{
    if j < m.len() {
        assert(m.subrange(0, j + 1).drop_last() =~= m.subrange(0, j));
        lemma_memo_suffix(m, j + 1, k);
    } else {
        assert(m.subrange(0, j) =~= m);
    }
}

proof fn lemma_stored_suffix(m: Seq<StoredEntry>, j: int, k: Seq<char>)
    requires
        0 <= j <= m.len(),
        forall|i: int| j <= i < m.len() ==> (#[trigger] m[i]).name@ != k,
    ensures
        stored_map(m).contains_key(k) == stored_map(m.subrange(0, j)).contains_key(k),
        stored_map(m).contains_key(k) ==> stored_map(m)[k] == stored_map(m.subrange(0, j))[k],
    decreases m.len() - j,
{
    if j < m.len() {
        assert(m.subrange(0, j + 1).drop_last() =~= m.subrange(0, j));
        lemma_stored_suffix(m, j + 1, k);
    } else {
        assert(m.subrange(0, j) =~= m);
    }
}

fn copy_entry(e: &Option<Vec<String>>) -> (r: Option<Vec<String>>)
    ensures
        entry_view(r) == entry_view(*e),
{
    match e {
        Some(v) => Some(copy_strings(v)),
        None => None,
    }
}

impl RegistryIndex {
    /// An index of the named registry with nothing looked up yet.
    pub fn new(registry_name: String) -> (r: RegistryIndex)
        ensures
            r@.registry == registry_name@,
            r@.memo == Map::<Seq<char>, Option<Seq<Seq<char>>>>::empty(),
            r@.stored == Map::<Seq<char>, (Option<Seq<char>>, Seq<Seq<char>>)>::empty(),
    {
        RegistryIndex { registry_name, memo: Vec::new(), stored: Vec::new() }
    }

    /// What a query for `name` needs: the entry this run already has, or a
    /// request with the token last received for `name`.
    pub fn lookup(&self, name: &str) -> (r: Lookup)
        ensures
            match lookup_spec(self@, name@) {
                Ok(e) => r matches Lookup::Cached(x) && entry_view(x) == e,
                Err(t) => r matches Lookup::Fetch(x) && etag_view(x) == t,
            },
    {
        let mut j: usize = self.memo.len();
        while j > 0
            invariant
                j <= self.memo@.len(),
                forall|i: int| j <= i < self.memo@.len() ==> (#[trigger] self.memo@[i]).name@ != name@,
            decreases j,
        {
            if texts_equal(self.memo[j - 1].name.as_str(), name) {
                proof {
                    lemma_memo_suffix(self.memo@, j as int, name@);
                    let pre = self.memo@.subrange(0, j as int);
                    assert(pre.drop_last() =~= self.memo@.subrange(0, j - 1));
                }
                return Lookup::Cached(copy_entry(&self.memo[j - 1].versions));
            }
            j -= 1;
        }
        proof {
            lemma_memo_suffix(self.memo@, 0, name@);
            assert(self.memo@.subrange(0, 0) =~= Seq::<CachedKrate>::empty());
        }
        let mut k: usize = self.stored.len();
        while k > 0
            invariant
                k <= self.stored@.len(),
                !memo_map(self.memo@).contains_key(name@),
                forall|i: int|
                    k <= i < self.stored@.len() ==> (#[trigger] self.stored@[i]).name@ != name@,
            decreases k,
        {
            if texts_equal(self.stored[k - 1].name.as_str(), name) {
                proof {
                    lemma_stored_suffix(self.stored@, k as int, name@);
                    let pre = self.stored@.subrange(0, k as int);
                    assert(pre.drop_last() =~= self.stored@.subrange(0, k - 1));
                }
                let etag = match &self.stored[k - 1].etag {
                    Some(e) => Some(e.clone()),
                    None => None,
                };
                return Lookup::Fetch(etag);
            }
            k -= 1;
        }
        proof {
            lemma_stored_suffix(self.stored@, 0, name@);
            assert(self.stored@.subrange(0, 0) =~= Seq::<StoredEntry>::empty());
        }
        Lookup::Fetch(None)
    }

    fn find_stored(&self, name: &str) -> (r: Option<usize>)
        ensures
            match r {
                Some(i) => i < self.stored@.len() && stored_map(self.stored@).contains_key(name@)
                    && stored_map(self.stored@)[name@] == (
                    etag_view(self.stored@[i as int].etag),
                    strings_view(self.stored@[i as int].versions@),
                ),
                None => !stored_map(self.stored@).contains_key(name@),
            },
    {
        let mut k: usize = self.stored.len();
        while k > 0
            invariant
                k <= self.stored@.len(),
                forall|i: int|
                    k <= i < self.stored@.len() ==> (#[trigger] self.stored@[i]).name@ != name@,
            decreases k,
        {
            if texts_equal(self.stored[k - 1].name.as_str(), name) {
                proof {
                    lemma_stored_suffix(self.stored@, k as int, name@);
                    let pre = self.stored@.subrange(0, k as int);
                    assert(pre.drop_last() =~= self.stored@.subrange(0, k - 1));
                }
                return Some(k - 1);
            }
            k -= 1;
        }
        proof {
            lemma_stored_suffix(self.stored@, 0, name@);
            assert(self.stored@.subrange(0, 0) =~= Seq::<StoredEntry>::empty());
        }
        None
    }

    fn remember(&mut self, name: &str, versions: Option<Vec<String>>)
        ensures
            final(self)@ == (IndexView {
                memo: old(self)@.memo.insert(name@, entry_view(versions)),
                ..old(self)@
            }),
    {
        let ghost before = self.memo@;
        self.memo.push(CachedKrate { name: name.to_owned(), versions });
        assert(self.memo@.drop_last() =~= before);
    }

    /// Records the registry's answer for `name` and returns the entry it
    /// gives. A full entry becomes the stored content with its token; "not
    /// modified" reuses the stored content unchanged; "not found" records
    /// that the crate does not exist. A failure, or "not modified" with
    /// nothing stored, changes nothing and is returned as an error.
    pub fn record(&mut self, name: &str, response: RegistryResponse) -> (r: Result<
        Option<Vec<String>>,
        FatalError,
    >)
        ensures
            match recorded(old(self)@, name@, response) {
                None => r is Err && final(self)@ == old(self)@,
                Some((next, entry)) => r matches Ok(x) && entry_view(x) == entry && final(self)@
                    == next,
            },
    {
        match response {
            RegistryResponse::Entry { etag, body } => {
                let versions = match parse_index_versions(body.as_slice()) {
                    Ok(v) => v,
                    Err(_) => {
                        return Err(
                            FatalError::Registry(String::from_str("malformed index entry")),
                        );
                    },
                };
                self.remember(name, Some(copy_strings(&versions)));
                let ghost before = self.stored@;
                self.stored.push(
                    StoredEntry { name: name.to_owned(), etag, versions: copy_strings(&versions) },
                );
                assert(self.stored@.drop_last() =~= before);
                Ok(Some(versions))
            },
            RegistryResponse::NotModified => {
                match self.find_stored(name) {
                    None => Err(
                        FatalError::Registry(String::from_str("no stored entry to reuse")),
                    ),
                    Some(i) => {
                        let versions = copy_strings(&self.stored[i].versions);
                        self.remember(name, Some(copy_strings(&versions)));
                        Ok(Some(versions))
                    },
                }
            },
            RegistryResponse::NotFound => {
                self.remember(name, None);
                Ok(None)
            },
            RegistryResponse::Failed(msg) => Err(FatalError::Registry(msg)),
        }
    }

    /// Whether the crate exists; `None` when this run has not looked it
    /// up yet.
    pub fn has_krate(&self, name: &str) -> (r: Option<bool>)
        ensures
            match lookup_spec(self@, name@) {
                Ok(e) => r == Some(e is Some),
                Err(_) => r is None,
            },
    {
        match self.lookup(name) {
            Lookup::Cached(e) => Some(e.is_some()),
            Lookup::Fetch(_) => None,
        }
    }

    /// Whether the crate exists with the given version (`Some(None)` when
    /// the crate does not exist); `None` when this run has not looked it
    /// up yet.
    pub fn has_krate_version(&self, name: &str, version: &str) -> (r: Option<Option<bool>>)
        ensures
            match lookup_spec(self@, name@) {
                Ok(None) => r == Some(None::<bool>),
                Ok(Some(vs)) => r == Some(Some(vs.contains(version@))),
                Err(_) => r is None,
            },
    {
        match self.lookup(name) {
            Lookup::Fetch(_) => None,
            Lookup::Cached(None) => Some(None),
            Lookup::Cached(Some(vs)) => {
                let mut i: usize = 0;
                while i < vs.len()
                    invariant
                        i <= vs@.len(),
                        lookup_spec(self@, name@) == Ok::<
                            Option<Seq<Seq<char>>>,
                            Option<Seq<char>>,
                        >(Some(strings_view(vs@))),
                        forall|j: int| 0 <= j < i ==> (#[trigger] vs@[j])@ != version@,
                    decreases vs@.len() - i,
                {
                    if texts_equal(vs[i].as_str(), version) {
                        assert(strings_view(vs@)[i as int] == version@);
                        assert(strings_view(vs@).contains(version@));
                        return Some(Some(true));
                    }
                    i += 1;
                }
                assert(!strings_view(vs@).contains(version@)) by {
                    if strings_view(vs@).contains(version@) {
                        let j = choose|j: int|
                            0 <= j < strings_view(vs@).len() && strings_view(vs@)[j] == version@;
                        assert(vs@[j]@ == version@);
                    }
                }
                Some(Some(false))
            },
        }
    }
}

/// Once the registry's answer for a crate has been recorded, a later query
/// for that crate in the same run is answered from the index, with the
/// recorded entry, and issues no request; a "not modified" answer yields
/// the content stored before it, unchanged; and a failed answer leaves
/// every entry as it was.
pub proof fn lemma_recorded_entry_is_reused(s: IndexView, name: Seq<char>, response: RegistryResponse)
    ensures
        recorded(s, name, response) matches Some((next, entry)) ==> lookup_spec(next, name) == Ok::<
            Option<Seq<Seq<char>>>,
            Option<Seq<char>>,
        >(entry),
        response is NotModified ==> (recorded(s, name, response) matches Some((_, entry)) ==> entry
            == Some(s.stored[name].1)),
        s.memo.contains_key(name) ==> lookup_spec(s, name) == Ok::<
            Option<Seq<Seq<char>>>,
            Option<Seq<char>>,
        >(s.memo[name]),
{
}

/// One registry opened in this run, under the name it was asked for by
/// (`None` for the default registry).
#[derive(Debug, Clone)]
struct OpenRegistry {
    key: Option<String>,
    index: RegistryIndex,
}

/// The registries opened in this run: each is opened once and its index
/// kept for every later query.
#[derive(Debug, Clone)]
pub struct CratesIndex {
    registries: Vec<OpenRegistry>,
}

pub open spec fn key_view(k: Option<&str>) -> Option<Seq<char>> {
    match k {
        Some(s) => Some(s@),
        None => None,
    }
}

spec fn registries_map(m: Seq<OpenRegistry>) -> Map<Option<Seq<char>>, IndexView>
    decreases m.len(),
{
    if m.len() == 0 {
        Map::empty()
    } else {
        registries_map(m.drop_last()).insert(etag_view(m.last().key), m.last().index@)
    }
}

proof fn lemma_registries_suffix(m: Seq<OpenRegistry>, j: int, k: Option<Seq<char>>)
    requires
        0 <= j <= m.len(),
        forall|i: int| j <= i < m.len() ==> etag_view((#[trigger] m[i]).key) != k,
    ensures
        registries_map(m).contains_key(k) == registries_map(m.subrange(0, j)).contains_key(k),
        registries_map(m).contains_key(k) ==> registries_map(m)[k] == registries_map(
            m.subrange(0, j),
        )[k],
    decreases m.len() - j,
{
    if j < m.len() {
        assert(m.subrange(0, j + 1).drop_last() =~= m.subrange(0, j));
        lemma_registries_suffix(m, j + 1, k);
    } else {
        assert(m.subrange(0, j) =~= m);
    }
}

proof fn lemma_registries_update(m: Seq<OpenRegistry>, i: int, r: OpenRegistry)
    requires
        0 <= i < m.len(),
        r.key == m[i].key,
        forall|j: int| i < j < m.len() ==> etag_view((#[trigger] m[j]).key) != etag_view(m[i].key),
    ensures
        registries_map(m.update(i, r)) == registries_map(m).insert(etag_view(r.key), r.index@),
    decreases m.len(),
{
    if i == m.len() - 1 {
        assert(m.update(i, r).drop_last() =~= m.drop_last());
        assert(registries_map(m.update(i, r)) =~= registries_map(m).insert(
            etag_view(r.key),
            r.index@,
        ));
    } else {
        lemma_registries_update(m.drop_last(), i, r);
        assert(m.update(i, r).drop_last() =~= m.drop_last().update(i, r));
        assert(registries_map(m.update(i, r)) =~= registries_map(m).insert(
            etag_view(r.key),
            r.index@,
        ));
    }
}

fn same_key(a: &Option<String>, b: Option<&str>) -> (r: bool)
    ensures
        r == (etag_view(*a) == key_view(b)),
{
    match (a, b) {
        (Some(x), Some(y)) => texts_equal(x.as_str(), y),
        (None, None) => true,
        _ => false,
    }
}

impl CratesIndex {
    pub closed spec fn view(&self) -> Map<Option<Seq<char>>, IndexView> {
        registries_map(self.registries@)
    }

    /// No registry opened yet.
    pub fn new() -> (r: CratesIndex)
        ensures
            r.view() == Map::<Option<Seq<char>>, IndexView>::empty(),
    {
        CratesIndex { registries: Vec::new() }
    }

    fn position(&self, registry: Option<&str>) -> (r: Option<usize>)
        ensures
            match r {
                Some(i) => i < self.registries@.len() && self.view().contains_key(
                    key_view(registry),
                ) && self.view()[key_view(registry)] == self.registries@[i as int].index@
                    && etag_view(self.registries@[i as int].key) == key_view(registry) && forall|
                    j: int,
                | i < j < self.registries@.len() ==> etag_view(
                    (#[trigger] self.registries@[j]).key,
                ) != key_view(registry),
                None => !self.view().contains_key(key_view(registry)),
            },
    {
        let mut j: usize = self.registries.len();
        while j > 0
            invariant
                j <= self.registries@.len(),
                forall|i: int|
                    j <= i < self.registries@.len() ==> etag_view(
                        (#[trigger] self.registries@[i]).key,
                    ) != key_view(registry),
            decreases j,
        {
            if same_key(&self.registries[j - 1].key, registry) {
                proof {
                    lemma_registries_suffix(self.registries@, j as int, key_view(registry));
                    let pre = self.registries@.subrange(0, j as int);
                    assert(pre.drop_last() =~= self.registries@.subrange(0, j - 1));
                }
                return Some(j - 1);
            }
            j -= 1;
        }
        proof {
            lemma_registries_suffix(self.registries@, 0, key_view(registry));
            assert(self.registries@.subrange(0, 0) =~= Seq::<OpenRegistry>::empty());
        }
        None
    }

    /// Whether this run has opened the registry.
    pub fn has_registry(&self, registry: Option<&str>) -> (r: bool)
        ensures
            r == self.view().contains_key(key_view(registry)),
    {
        self.position(registry).is_some()
    }

    /// Keeps the index of a registry just opened, for the rest of the run.
    pub fn open_registry(&mut self, registry: Option<&str>, index: RegistryIndex)
        ensures
            final(self).view() == old(self).view().insert(key_view(registry), index@),
    {
        let key = match registry {
            Some(r) => Some(String::from_str(r)),
            None => None,
        };
        let ghost before = self.registries@;
        self.registries.push(OpenRegistry { key, index });
        assert(self.registries@.drop_last() =~= before);
    }

    /// What a query for the crate needs in the registry; `None` when the
    /// registry is not open yet.
    pub fn lookup(&self, registry: Option<&str>, name: &str) -> (r: Option<Lookup>)
        ensures
            !self.view().contains_key(key_view(registry)) ==> r is None,
            self.view().contains_key(key_view(registry)) ==> (r matches Some(l) && match lookup_spec(
                self.view()[key_view(registry)],
                name@,
            ) {
                Ok(e) => l matches Lookup::Cached(x) && entry_view(x) == e,
                Err(t) => l matches Lookup::Fetch(x) && etag_view(x) == t,
            }),
    {
        match self.position(registry) {
            None => None,
            Some(i) => Some(self.registries[i].index.lookup(name)),
        }
    }

    /// Whether the crate exists in the registry with the given version
    /// (`Some(None)` when the crate does not exist); `None` when the
    /// registry is not open or this run has not looked the crate up yet.
    pub fn has_krate_version(&self, registry: Option<&str>, name: &str, version: &str) -> (r: Option<
        Option<bool>,
    >)
        ensures
            !self.view().contains_key(key_view(registry)) ==> r is None,
            self.view().contains_key(key_view(registry)) ==> match lookup_spec(
                self.view()[key_view(registry)],
                name@,
            ) {
                Ok(None) => r == Some(None::<bool>),
                Ok(Some(vs)) => r == Some(Some(vs.contains(version@))),
                Err(_) => r is None,
            },
    {
        match self.position(registry) {
            None => None,
            Some(i) => self.registries[i].index.has_krate_version(name, version),
        }
    }

    /// Records the registry's answer for the crate in that registry's
    /// index; fails, changing nothing, when the registry is not open.
    pub fn record(&mut self, registry: Option<&str>, name: &str, response: RegistryResponse) -> (r:
        Result<Option<Vec<String>>, FatalError>)
        ensures
            !old(self).view().contains_key(key_view(registry)) ==> r is Err && final(self).view()
                == old(self).view(),
            old(self).view().contains_key(key_view(registry)) ==> match recorded(
                old(self).view()[key_view(registry)],
                name@,
                response,
            ) {
                None => r is Err && final(self).view() == old(self).view(),
                Some((next, entry)) => r matches Ok(x) && entry_view(x) == entry
                    && final(self).view() == old(self).view().insert(key_view(registry), next),
            },
    {
        match self.position(registry) {
            None => Err(FatalError::Registry(String::from_str("registry not opened"))),
            Some(i) => {
                let ghost before = self.registries@;
                let r = self.registries[i].index.record(name, response);
                proof {
                    lemma_registries_update(before, i as int, self.registries@[i as int]);
                    assert(self.registries@ =~= before.update(i as int, self.registries@[i as int]));
                    if r is Err {
                        assert(self.view() =~= registries_map(before).insert(
                            key_view(registry),
                            before[i as int].index@,
                        ));
                    }
                }
                r
            },
        }
    }
}

} // verus!
