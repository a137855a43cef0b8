//! The caches that hand out computed contours and paths by name, and
//! remember which names were asked for.
use vstd::prelude::*;

use crate::fig_writer::texts;
use crate::io_error::{io_error_kind_is_other, io_error_payload, other_io_error};
use crate::make_paths::{
    contour_statistics, missing_entry_message, missing_path_error, missing_start_error,
    path_statistics, unused_names, usage_report,
};

verus! {

/// No name occurs twice among the entries.
pub open spec fn keys_unique<T>(s: Seq<(String, T)>) -> bool {
    forall|i: int, j: int| 0 <= i < j < s.len() ==> (#[trigger] s[i]).0@ != (#[trigger] s[j]).0@
}

/// The entries as a map from names to values.
pub open spec fn entries_map<T>(s: Seq<(String, T)>) -> Map<Seq<char>, T>
    decreases s.len(),
{
    if s.len() == 0 {
        Map::empty()
    } else {
        entries_map(s.drop_last()).insert(s.last().0@, s.last().1)
    }
}

/// The names of the entries, in order.
pub open spec fn entry_names<T>(s: Seq<(String, T)>) -> Seq<Seq<char>> {
    s.map_values(|e: (String, T)| e.0@)
}

proof fn lemma_entries_map_get<T>(s: Seq<(String, T)>, i: int)
    requires
        keys_unique(s),
        0 <= i < s.len(),
    ensures
        entries_map(s).dom().contains(s[i].0@),
        entries_map(s)[s[i].0@] == s[i].1,
    decreases s.len(),
{
    let t = s.drop_last();
    if i < s.len() - 1 {
        assert forall|a: int, b: int| 0 <= a < b < t.len() implies (#[trigger] t[a]).0@ != (
        #[trigger] t[b]).0@ by {
            assert(s[a] == t[a] && s[b] == t[b]);
        }
        lemma_entries_map_get(t, i);
        assert(s[i] == t[i]);
        assert(s[i].0@ != s[s.len() - 1].0@);
    }
}

proof fn lemma_entries_map_dom<T>(s: Seq<(String, T)>, k: Seq<char>)
    ensures
        entries_map(s).dom().contains(k) <==> exists|i: int| 0 <= i < s.len() && (#[trigger] s[i]).0@ == k,
    decreases s.len(),
{
    if s.len() > 0 {
        let t = s.drop_last();
        lemma_entries_map_dom(t, k);
        if exists|i: int| 0 <= i < t.len() && (#[trigger] t[i]).0@ == k {
            let i = choose|i: int| 0 <= i < t.len() && (#[trigger] t[i]).0@ == k;
            assert(s[i] == t[i]);
        }
        if exists|i: int| 0 <= i < s.len() && (#[trigger] s[i]).0@ == k {
            let i = choose|i: int| 0 <= i < s.len() && (#[trigger] s[i]).0@ == k;
            if i < t.len() {
                assert(s[i] == t[i]);
            }
        }
    }
}

/// Values by name, with the record of which names were asked for.
///
/// The entries are kept in a `Vec` with the names unique, not in a
/// `HashMap<String, _>`: vstd's specification of `HashMap` proves nothing
/// useful of lookups by `String` keys, while a vector of pairs can be
/// followed entry by entry.  The names asked for are kept in a `Vec` too; the
/// reports only ask whether a name is among them.
pub struct Registry<T> {
    entries: Vec<(String, T)>,
    seen: Vec<String>,
}

impl<T> Registry<T> {
    /// What the registry holds.
    pub closed spec fn map(&self) -> Map<Seq<char>, T> {
        entries_map(self.entries@)
    }

    /// The names held, in the order in which they were first added.
    pub closed spec fn names(&self) -> Seq<Seq<char>> {
        entry_names(self.entries@)
    }

    /// The names asked for so far.
    pub closed spec fn seen(&self) -> Seq<Seq<char>> {
        texts(self.seen@)
    }

    #[verifier::type_invariant]
    spec fn inv(self) -> bool {
        keys_unique(self.entries@)
    }

    /// The names held are exactly the keys of the map.
    pub proof fn lemma_names_are_keys(&self)
        ensures
            forall|k: Seq<char>| self.map().dom().contains(k) <==> self.names().contains(k),
    {
        assert forall|k: Seq<char>| self.map().dom().contains(k) <==> self.names().contains(k) by {
            lemma_entries_map_dom(self.entries@, k);
            if self.names().contains(k) {
                let i = choose|i: int| 0 <= i < self.names().len() && self.names()[i] == k;
                assert(self.entries@[i].0@ == k);
            }
            if self.map().dom().contains(k) {
                let i = choose|i: int|
                    0 <= i < self.entries@.len() && (#[trigger] self.entries@[i]).0@ == k;
                assert(self.names()[i] == k);
            }
        }
    }

    /// Brings the invariant into the caller's proof: no name is held twice.
    fn note_names_unique(&self)
        ensures
            self.names().no_duplicates(),
    {
        proof {
            use_type_invariant(self);
            assert forall|i: int, j: int|
                0 <= i < self.names().len() && 0 <= j < self.names().len() && i != j implies self.names()[i]
                != self.names()[j] by {
                if i < j {
                    assert(self.entries@[i].0@ != self.entries@[j].0@);
                } else {
                    assert(self.entries@[j].0@ != self.entries@[i].0@);
                }
            }
        }
    }

    pub fn new() -> (r: Registry<T>)
        ensures
            r.map() == Map::<Seq<char>, T>::empty(),
            r.names() == Seq::<Seq<char>>::empty(),
            r.seen() == Seq::<Seq<char>>::empty(),
    {
        let r = Registry { entries: Vec::new(), seen: Vec::new() };
        assert(r.names() =~= Seq::<Seq<char>>::empty());
        assert(r.seen() =~= Seq::<Seq<char>>::empty());
        r
    }

    fn position(&self, name: &str) -> (r: Option<usize>)
        ensures
            match r {
                Some(i) => i < self.entries@.len() && self.entries@[i as int].0@ == name@,
                None => forall|i: int|
                    0 <= i < self.entries@.len() ==> (#[trigger] self.entries@[i]).0@ != name@,
            },
    {
        let key = name.to_owned();
        let mut i: usize = 0;
        while i < self.entries.len()
            invariant
                i <= self.entries@.len(),
                key@ == name@,
                forall|j: int| 0 <= j < i ==> (#[trigger] self.entries@[j]).0@ != name@,
            decreases self.entries@.len() - i,
        {
            if self.entries[i].0 == key {
                return Some(i);
            }
            i = i + 1;
        }
        None
    }

    /// Stores `value` under `name`, replacing what was stored there.
    pub fn add(&mut self, name: &str, value: T)
        ensures
            final(self).map() == old(self).map().insert(name@, value),
            final(self).seen() == old(self).seen(),
            old(self).map().dom().contains(name@) ==> final(self).names() == old(self).names(),
            !old(self).map().dom().contains(name@) ==> final(self).names() == old(
                self,
            ).names().push(name@),
            final(self).names().no_duplicates(),
    {
        proof {
            use_type_invariant(&*self);
            lemma_entries_map_dom(self.entries@, name@);
        }
        let ghost before = self.entries@;
        let position = self.position(name);
        let mut entries: Vec<(String, T)> = Vec::new();
        std::mem::swap(&mut entries, &mut self.entries);
        assert(entries@ == before);
        match position {
            Some(i) => {
                entries.set(i, (name.to_owned(), value));
                let ghost after = entries@;
                assert(keys_unique(after)) by {
                    assert forall|a: int, b: int| 0 <= a < b < after.len() implies (
                    #[trigger] after[a]).0@ != (#[trigger] after[b]).0@ by {
                        assert(before[a].0@ != before[b].0@);
                    }
                }
                assert forall|k: Seq<char>|
                    #[trigger] entries_map(after).dom().contains(k) <==> entries_map(
                        before,
                    ).insert(name@, after[i as int].1).dom().contains(k) by {
                    lemma_entries_map_dom(after, k);
                    lemma_entries_map_dom(before, k);
                    if exists|j: int| 0 <= j < before.len() && (#[trigger] before[j]).0@ == k {
                        let j = choose|j: int| 0 <= j < before.len() && (#[trigger] before[j]).0@ == k;
                        assert(after[j].0@ == k);
                    }
                    if exists|j: int| 0 <= j < after.len() && (#[trigger] after[j]).0@ == k {
                        let j = choose|j: int| 0 <= j < after.len() && (#[trigger] after[j]).0@ == k;
                        if j != i {
                            assert(before[j].0@ == k);
                        }
                    }
                    if k == name@ {
                        assert(after[i as int].0@ == k);
                    }
                }
                assert forall|k: Seq<char>| #[trigger]
                    entries_map(after).dom().contains(k) implies entries_map(after)[k]
                    == entries_map(before).insert(name@, after[i as int].1)[k] by {
                    lemma_entries_map_dom(after, k);
                    let j = choose|j: int| 0 <= j < after.len() && (#[trigger] after[j]).0@ == k;
                    lemma_entries_map_get(after, j);
                    if j != i {
                        lemma_entries_map_get(before, j);
                        assert(before[j] == after[j]);
                    }
                }
                assert(entries_map(after) =~= entries_map(before).insert(name@, after[i as int].1));
                assert(entry_names(after) =~= entry_names(before));
            },
            None => {
                entries.push((name.to_owned(), value));
                let ghost after = entries@;
                assert(after.drop_last() == before);
                assert(keys_unique(after)) by {
                    assert forall|a: int, b: int| 0 <= a < b < after.len() implies (
                    #[trigger] after[a]).0@ != (#[trigger] after[b]).0@ by {
                        if b < before.len() {
                            assert(before[a].0@ != before[b].0@);
                        } else {
                            assert(before[a] == after[a]);
                        }
                    }
                }
                assert(entry_names(after) =~= entry_names(before).push(name@));
            },
        }
        self.entries = entries;
        self.note_names_unique();
    }

    /// The value stored under `name`, if any; the name is recorded as asked
    /// for either way.
    pub fn get(&mut self, name: &str) -> (r: Option<&T>)
        ensures
            final(self).map() == old(self).map(),
            final(self).names() == old(self).names(),
            final(self).seen() == old(self).seen().push(name@),
            final(self).names().no_duplicates(),
            match r {
                Some(v) => old(self).map().dom().contains(name@) && *v == old(self).map()[name@],
                None => !old(self).map().dom().contains(name@),
            },
    {
        proof {
            use_type_invariant(&*self);
        }
        let mut seen: Vec<String> = Vec::new();
        std::mem::swap(&mut seen, &mut self.seen);
        seen.push(name.to_owned());
        self.seen = seen;
        proof {
            lemma_entries_map_dom(self.entries@, name@);
        }
        assert(texts(self.seen@) =~= texts(old(self).seen@).push(name@));
        self.note_names_unique();
        match self.position(name) {
            Some(i) => {
                proof {
                    use_type_invariant(&*self);
                    lemma_entries_map_get(self.entries@, i as int);
                }
                Some(&self.entries[i].1)
            },
            None => None,
        }
    }

    /// The names held, in the order in which they were first added.
    pub fn held_names(&self) -> (r: Vec<String>)
        ensures
            texts(r@) == self.names(),
    {
        let mut r: Vec<String> = Vec::new();
        let mut i: usize = 0;
        while i < self.entries.len()
            invariant
                i <= self.entries@.len(),
                texts(r@) == entry_names(self.entries@).take(i as int),
            decreases self.entries@.len() - i,
        {
            let name = self.entries[i].0.clone();
            assert(name@ == self.entries@[i as int].0@);
            assert(entry_names(self.entries@)[i as int] == self.entries@[i as int].0@);
            let ghost before = texts(r@);
            r.push(name);
            assert(texts(r@) =~= before.push(name@));
            assert(texts(r@) =~= entry_names(self.entries@).take(i + 1));
            i = i + 1;
        }
        assert(entry_names(self.entries@).take(i as int) =~= entry_names(self.entries@));
        r
    }

    /// The names asked for so far.
    pub fn seen_names(&self) -> (r: &Vec<String>)
        ensures
            texts(r@) == self.seen(),
    {
        &self.seen
    }
}

/// Stored values are read back: after `add(name, value)`, `get(name)` gives
/// `value`, and other names keep what they held.
pub proof fn lemma_read_after_add<T>(map: Map<Seq<char>, T>, name: Seq<char>, value: T, other: Seq<char>)
    requires
        other != name,
    ensures
        map.insert(name, value).dom().contains(name),
        map.insert(name, value)[name] == value,
        map.insert(name, value).dom().contains(other) == map.dom().contains(other),
        map.dom().contains(other) ==> map.insert(name, value)[other] == map[other],
{
}

/// The paths computed for the figures, each with the state it starts from.
pub struct PathProvider<P, S> {
    paths: Registry<(P, S)>,
}

impl<P, S> PathProvider<P, S> {
    /// The paths and starts held, by name.
    pub closed spec fn map(&self) -> Map<Seq<char>, (P, S)> {
        self.paths.map()
    }

    /// The names asked for so far.
    pub closed spec fn seen(&self) -> Seq<Seq<char>> {
        self.paths.seen()
    }

    /// The names held, in the order in which they were first added.
    pub closed spec fn names(&self) -> Seq<Seq<char>> {
        self.paths.names()
    }

    /// The names held are exactly the keys of the map.
    pub proof fn lemma_names_are_keys(&self)
        ensures
            forall|k: Seq<char>| self.map().dom().contains(k) <==> self.names().contains(k),
    {
        self.paths.lemma_names_are_keys();
    }

    pub fn new() -> (r: PathProvider<P, S>)
        ensures
            r.map() == Map::<Seq<char>, (P, S)>::empty(),
            r.names() == Seq::<Seq<char>>::empty(),
            r.seen() == Seq::<Seq<char>>::empty(),
    {
        PathProvider { paths: Registry::new() }
    }

    /// Stores a path and its start under `name`.
    pub fn add(&mut self, name: &str, path: P, start: S)
        ensures
            final(self).map() == old(self).map().insert(name@, (path, start)),
            final(self).names().no_duplicates(),
            final(self).seen() == old(self).seen(),
            old(self).map().dom().contains(name@) ==> final(self).names() == old(self).names(),
            !old(self).map().dom().contains(name@) ==> final(self).names() == old(
                self,
            ).names().push(name@),
    {
        self.paths.add(name, (path, start));
    }

    /// The path stored under `name`, or an error that names it.
    pub fn get_path(&mut self, name: &str) -> (r: Result<&P, std::io::Error>)
        ensures
            final(self).map() == old(self).map(),
            final(self).names().no_duplicates(),
            final(self).names() == old(self).names(),
            final(self).seen() == old(self).seen().push(name@),
            match r {
                Ok(p) => old(self).map().dom().contains(name@) && *p == old(self).map()[name@].0,
                Err(e) => !old(self).map().dom().contains(name@) && io_error_kind_is_other(e)
                    && io_error_payload(e) == missing_entry_message("path"@, name@),
            },
    {
        match self.paths.get(name) {
            Some(entry) => Ok(&entry.0),
            None => Err(missing_path_error(name)),
        }
    }

    /// The state that the path stored under `name` starts from, or an error
    /// that names it.
    pub fn get_start(&mut self, name: &str) -> (r: Result<&S, std::io::Error>)
        ensures
            final(self).map() == old(self).map(),
            final(self).names().no_duplicates(),
            final(self).names() == old(self).names(),
            final(self).seen() == old(self).seen().push(name@),
            match r {
                Ok(s) => old(self).map().dom().contains(name@) && *s == old(self).map()[name@].1,
                Err(e) => !old(self).map().dom().contains(name@) && io_error_kind_is_other(e)
                    && io_error_payload(e) == missing_entry_message("start"@, name@),
            },
    {
        match self.paths.get(name) {
            Some(entry) => Ok(&entry.1),
            None => Err(missing_start_error(name)),
        }
    }

    /// Which paths were never asked for.
    pub fn get_statistics(&self) -> (r: String)
        ensures
            r@ == usage_report("paths"@, unused_names(self.names(), self.seen()), true),
    {
        let names = self.paths.held_names();
        path_statistics(&names, self.paths.seen_names())
    }
}

/// The contours computed for each set of coupling constants, by the short
/// text that names the constants.
pub struct ContourProvider<C> {
    contours: Registry<C>,
}

impl<C> ContourProvider<C> {
    /// The contours held, by the text of their coupling constants.
    pub closed spec fn map(&self) -> Map<Seq<char>, C> {
        self.contours.map()
    }

    /// The constants asked for so far.
    pub closed spec fn seen(&self) -> Seq<Seq<char>> {
        self.contours.seen()
    }

    /// The constants held, in the order in which they were first added.
    pub closed spec fn names(&self) -> Seq<Seq<char>> {
        self.contours.names()
    }

    /// The keys held are exactly the keys of the map.
    pub proof fn lemma_names_are_keys(&self)
        ensures
            forall|k: Seq<char>| self.map().dom().contains(k) <==> self.names().contains(k),
    {
        self.contours.lemma_names_are_keys();
    }

    pub fn new() -> (r: ContourProvider<C>)
        ensures
            r.map() == Map::<Seq<char>, C>::empty(),
            r.names() == Seq::<Seq<char>>::empty(),
            r.seen() == Seq::<Seq<char>>::empty(),
    {
        ContourProvider { contours: Registry::new() }
    }

    /// Stores the contours of the constants named `key`.
    pub fn add(&mut self, key: &str, contours: C)
        ensures
            final(self).map() == old(self).map().insert(key@, contours),
            final(self).names().no_duplicates(),
            final(self).seen() == old(self).seen(),
            old(self).map().dom().contains(key@) ==> final(self).names() == old(self).names(),
            !old(self).map().dom().contains(key@) ==> final(self).names() == old(
                self,
            ).names().push(key@),
    {
        self.contours.add(key, contours);
    }

    /// The contours of the constants named `key`; when there are none, an
    /// error whose message shows the constants as `shown`.
    pub fn get(&mut self, key: &str, shown: &str) -> (r: Result<&C, std::io::Error>)
        ensures
            final(self).map() == old(self).map(),
            final(self).names().no_duplicates(),
            final(self).names() == old(self).names(),
            final(self).seen() == old(self).seen().push(key@),
            match r {
                Ok(c) => old(self).map().dom().contains(key@) && *c == old(self).map()[key@],
                Err(e) => !old(self).map().dom().contains(key@) && io_error_kind_is_other(e)
                    && io_error_payload(e) == missing_entry_message("contour"@, shown@),
            },
    {
        match self.contours.get(key) {
            Some(c) => Ok(c),
            None => {
                let mut message = String::new();
                message.append("Could not find contour for ");
                message.append(shown);
                proof {
                    reveal_strlit("Could not find contour for ");
                    reveal_strlit("Could not find ");
                    reveal_strlit("contour");
                    reveal_strlit(" for ");
                    assert("Could not find contour for "@ == "Could not find "@ + "contour"@
                        + " for "@);
                }
                Err(other_io_error(message.as_str()))
            },
        }
    }

    /// Which constants were never asked for.
    pub fn get_statistics(&self) -> (r: String)
        ensures
            r@ == usage_report("contours"@, unused_names(self.names(), self.seen()), false),
    {
        let names = self.contours.held_names();
        contour_statistics(&names, self.contours.seen_names())
    }
}

/// The contours and paths that the figures are drawn from.
pub struct PxuProvider<C, P, S> {
    contours: ContourProvider<C>,
    paths: PathProvider<P, S>,
}

impl<C, P, S> PxuProvider<C, P, S> {
    pub closed spec fn contours(&self) -> ContourProvider<C> {
        self.contours
    }

    pub closed spec fn paths(&self) -> PathProvider<P, S> {
        self.paths
    }

    /// In each of the two providers, the names held are exactly the keys of
    /// its map.
    pub proof fn lemma_names_are_keys(&self)
        ensures
            forall|k: Seq<char>|
                self.contours().map().dom().contains(k) <==> self.contours().names().contains(k),
            forall|k: Seq<char>|
                self.paths().map().dom().contains(k) <==> self.paths().names().contains(k),
    {
        self.contours.lemma_names_are_keys();
        self.paths.lemma_names_are_keys();
    }

    pub fn new() -> (r: PxuProvider<C, P, S>)
        ensures
            r.contours().map() == Map::<Seq<char>, C>::empty(),
            r.contours().names() == Seq::<Seq<char>>::empty(),
            r.contours().seen() == Seq::<Seq<char>>::empty(),
            r.paths().map() == Map::<Seq<char>, (P, S)>::empty(),
            r.paths().names() == Seq::<Seq<char>>::empty(),
            r.paths().seen() == Seq::<Seq<char>>::empty(),
    {
        PxuProvider { contours: ContourProvider::new(), paths: PathProvider::new() }
    }

    pub fn add_contours(&mut self, key: &str, contours: C)
        ensures
            final(self).contours().map() == old(self).contours().map().insert(key@, contours),
            final(self).contours().names().no_duplicates(),
            final(self).contours().seen() == old(self).contours().seen(),
            old(self).contours().map().dom().contains(key@) ==> final(self).contours().names()
                == old(self).contours().names(),
            !old(self).contours().map().dom().contains(key@) ==> final(self).contours().names()
                == old(self).contours().names().push(key@),
            final(self).paths() == old(self).paths(),
    {
        self.contours.add(key, contours);
    }

    pub fn get_contours(&mut self, key: &str, shown: &str) -> (r: Result<&C, std::io::Error>)
        ensures
            final(self).contours().map() == old(self).contours().map(),
            final(self).contours().names().no_duplicates(),
            final(self).contours().names() == old(self).contours().names(),
            final(self).contours().seen() == old(self).contours().seen().push(key@),
            final(self).paths() == old(self).paths(),
            match r {
                Ok(c) => old(self).contours().map().dom().contains(key@) && *c == old(
                    self,
                ).contours().map()[key@],
                Err(e) => !old(self).contours().map().dom().contains(key@) && io_error_kind_is_other(e)
                    && io_error_payload(e) == missing_entry_message("contour"@, shown@),
            },
    {
        self.contours.get(key, shown)
    }

    pub fn add_path(&mut self, name: &str, path: P, start: S)
        ensures
            final(self).paths().map() == old(self).paths().map().insert(name@, (path, start)),
            final(self).paths().names().no_duplicates(),
            final(self).paths().seen() == old(self).paths().seen(),
            old(self).paths().map().dom().contains(name@) ==> final(self).paths().names() == old(
                self,
            ).paths().names(),
            !old(self).paths().map().dom().contains(name@) ==> final(self).paths().names() == old(
                self,
            ).paths().names().push(name@),
            final(self).contours() == old(self).contours(),
    {
        self.paths.add(name, path, start);
    }

    pub fn get_path(&mut self, name: &str) -> (r: Result<&P, std::io::Error>)
        ensures
            final(self).paths().map() == old(self).paths().map(),
            final(self).paths().names().no_duplicates(),
            final(self).paths().names() == old(self).paths().names(),
            final(self).paths().seen() == old(self).paths().seen().push(name@),
            final(self).contours() == old(self).contours(),
            match r {
                Ok(p) => old(self).paths().map().dom().contains(name@) && *p == old(
                    self,
                ).paths().map()[name@].0,
                Err(e) => !old(self).paths().map().dom().contains(name@) && io_error_kind_is_other(e)
                    && io_error_payload(e) == missing_entry_message("path"@, name@),
            },
    {
        self.paths.get_path(name)
    }

    pub fn get_start(&mut self, name: &str) -> (r: Result<&S, std::io::Error>)
        ensures
            final(self).paths().map() == old(self).paths().map(),
            final(self).paths().names().no_duplicates(),
            final(self).paths().names() == old(self).paths().names(),
            final(self).paths().seen() == old(self).paths().seen().push(name@),
            final(self).contours() == old(self).contours(),
            match r {
                Ok(s) => old(self).paths().map().dom().contains(name@) && *s == old(
                    self,
                ).paths().map()[name@].1,
                Err(e) => !old(self).paths().map().dom().contains(name@) && io_error_kind_is_other(e)
                    && io_error_payload(e) == missing_entry_message("start"@, name@),
            },
    {
        self.paths.get_start(name)
    }

    /// The summaries of the contour and the path provider, one after the
    /// other.
    pub fn get_statistics(&self) -> (r: String)
        ensures
            r@ == usage_report(
                "contours"@,
                unused_names(self.contours().names(), self.contours().seen()),
                false,
            ) + "\n"@ + usage_report(
                "paths"@,
                unused_names(self.paths().names(), self.paths().seen()),
                true,
            ),
    {
        let mut r = self.contours.get_statistics();
        r.append("\n");
        let paths = self.paths.get_statistics();
        r.append(paths.as_str());
        r
    }
}

} // verus!
