//! The settings of one invocation: the named fields, and an open set of
//! engine options keyed by name.

use vstd::prelude::*;
use crate::text::same_text;

verus! {

/// Engine options by name. A name occurs at most once: setting a name again
/// replaces what it stood for.
#[derive(Debug)]
pub struct Config {
    entries: Vec<(&'static str, &'static str)>,
}

/// The options that `entries` hold, by name.
pub closed spec fn options_of(entries: Seq<(&'static str, &'static str)>) -> Map<
    Seq<char>,
    Seq<char>,
> {
    Map::new(
        |k: Seq<char>| exists|i: int| 0 <= i < entries.len() && (#[trigger] entries[i]).0@ == k,
        |k: Seq<char>|
            entries[choose|i: int| 0 <= i < entries.len() && (#[trigger] entries[i]).0@ == k].1@,
    )
}

/// No two of `entries` have the same name.
pub closed spec fn distinct_names(entries: Seq<(&'static str, &'static str)>) -> bool {
    forall|i: int, j: int|
        0 <= i < j < entries.len() ==> (#[trigger] entries[i]).0@ != (#[trigger] entries[j]).0@
}

impl View for Config {
    type V = Map<Seq<char>, Seq<char>>;

    closed spec fn view(&self) -> Map<Seq<char>, Seq<char>> {
        options_of(self.entries@)
    }
}

impl Config {
    #[verifier::type_invariant]
    spec fn well_formed(&self) -> bool {
        distinct_names(self.entries@)
    }

    /// No options.
    pub fn new() -> (r: Config)
        ensures
            r@ == Map::<Seq<char>, Seq<char>>::empty(),
    {
        let r = Config { entries: Vec::new() };
        assert(r@ =~= Map::<Seq<char>, Seq<char>>::empty());
        r
    }

    fn position(&self, key: &str) -> (r: Option<usize>)
        ensures
            match r {
                Some(i) => i < self.entries.len() && self.entries[i as int].0@ == key@,
                None => forall|i: int|
                    0 <= i < self.entries.len() ==> (#[trigger] self.entries[i]).0@ != key@,
            },
    {
        let mut i: usize = 0;
        while i < self.entries.len()
            invariant
                i <= self.entries.len(),
                forall|j: int| 0 <= j < i ==> (#[trigger] self.entries[j]).0@ != key@,
            decreases self.entries.len() - i,
        {
            if same_text(self.entries[i].0, key) {
                return Some(i);
            }
            i = i + 1;
        }
        None
    }

    /// Whether an option named `key` is set.
    pub fn contains_key(&self, key: &str) -> (r: bool)
        ensures
            r == self@.contains_key(key@),
    {
        self.position(key).is_some()
    }

    /// What the option named `key` is set to, if it is set.
    pub fn get(&self, key: &str) -> (r: Option<&'static str>)
        ensures
            match r {
                Some(v) => self@.contains_key(key@) && self@[key@] == v@,
                None => !self@.contains_key(key@),
            },
    {
        proof {
            use_type_invariant(self);
        }
        match self.position(key) {
            Some(i) => {
                proof {
                    let es = self.entries@;
                    let k = choose|k: int| 0 <= k < es.len() && (#[trigger] es[k]).0@ == key@;
                    assert(k == i) by {
                        if k != i {
                            if k < i {
                                assert(es[k].0@ != es[i as int].0@);
                            } else {
                                assert(es[i as int].0@ != es[k].0@);
                            }
                        }
                    }
                }
                Some(self.entries[i].1)
            },
            None => None,
        }
    }

    /// Sets the option named `key` to `value`, and gives back what it was set to before.
    pub fn insert(&mut self, key: &'static str, value: &'static str) -> (r: Option<&'static str>)
        ensures
            final(self)@ == old(self)@.insert(key@, value@),
            match r {
                Some(v) => old(self)@.contains_key(key@) && old(self)@[key@] == v@,
                None => !old(self)@.contains_key(key@),
            },
    {
        proof {
            use_type_invariant(&*self);
        }
        let before = self.get(key);
        let mut entries = self.copy_entries();
        match self.position(key) {
            Some(i) => {
                proof {
                    lemma_replaced(entries@, i as int, key, value);
                }
                entries.set(i, (key, value));
            },
            None => {
                proof {
                    lemma_appended(entries@, key, value);
                }
                entries.push((key, value));
            },
        }
        self.entries = entries;
        before
    }

    /// A copy with the same options.
    pub fn duplicate(&self) -> (r: Config)
        ensures
            r@ == self@,
    {
        proof {
            use_type_invariant(self);
        }
        Config { entries: self.copy_entries() }
    }

    fn copy_entries(&self) -> (entries: Vec<(&'static str, &'static str)>)
        ensures
            entries@ == self.entries@,
    {
        let mut entries: Vec<(&'static str, &'static str)> = Vec::new();
        let mut i: usize = 0;
        while i < self.entries.len()
            invariant
                i <= self.entries.len(),
                entries@ == self.entries@.take(i as int),
            decreases self.entries.len() - i,
        {
            entries.push(self.entries[i]);
            i = i + 1;
        }
        assert(entries@ == self.entries@);
        entries
    }
}

impl Clone for Config {
    fn clone(&self) -> (r: Config)
        ensures
            r@ == self@,
    {
        self.duplicate()
    }
}

/// The settings of one invocation.
#[derive(Debug)]
pub struct Args {
    /// Stem of the file that the engine writes its result to.
    pub out_filename: &'static str,
    /// Language code handed to the engine.
    pub lang: &'static str,
    /// Further engine options: `psm`, `oem`, and `-c` for a sub-option.
    pub config: Config,
    /// Resolution of the image, in dots per inch.
    pub dpi: i32,
    /// Whether the engine is asked for character boxes instead of plain text.
    pub boxfile: bool,
}

/// What `Args` holds, as mathematical values.
pub struct ArgsView {
    pub out_filename: Seq<char>,
    pub lang: Seq<char>,
    pub config: Map<Seq<char>, Seq<char>>,
    pub dpi: int,
    pub boxfile: bool,
}

impl View for Args {
    type V = ArgsView;

    open spec fn view(&self) -> ArgsView {
        ArgsView {
            out_filename: self.out_filename@,
            lang: self.lang@,
            config: self.config@,
            dpi: self.dpi as int,
            boxfile: self.boxfile,
        }
    }
}

/// The settings that apply when nothing is chosen: English, 150 dpi, plain
/// text, result stem `out`, no further options.
pub open spec fn default_settings() -> ArgsView {
    ArgsView {
        out_filename: "out"@,
        lang: "eng"@,
        config: Map::empty(),
        dpi: 150,
        boxfile: false,
    }
}

impl Args {
    /// The default settings.
    pub fn new() -> (r: Args)
        ensures
            r@ == default_settings(),
    {
        Args { config: Config::new(), lang: "eng", out_filename: "out", dpi: 150, boxfile: false }
    }
}

impl Clone for Args {
    fn clone(&self) -> (r: Args)
        ensures
            r@ == self@,
    {
        Args {
            out_filename: self.out_filename,
            lang: self.lang,
            config: self.config.clone(),
            dpi: self.dpi,
            boxfile: self.boxfile,
        }
    }
}

/// Putting an entry in the place of one with the same name keeps the names
/// distinct and sets the name to the new value.
proof fn lemma_replaced(
    es: Seq<(&'static str, &'static str)>,
    i: int,
    key: &'static str,
    value: &'static str,
)
    requires
        distinct_names(es),
        0 <= i < es.len(),
        es[i].0@ == key@,
    ensures
        distinct_names(es.update(i, (key, value))),
        options_of(es.update(i, (key, value))) == options_of(es).insert(key@, value@),
{
    let ns = es.update(i, (key, value));
    assert forall|a: int, b: int| 0 <= a < b < ns.len() implies (#[trigger] ns[a]).0@ != (
    #[trigger] ns[b]).0@ by {
        assert(ns[a].0@ == es[a].0@);
        assert(ns[b].0@ == es[b].0@);
    }
    lemma_options_at(ns, i);
    assert forall|k: Seq<char>|
        options_of(ns).contains_key(k) == options_of(es).insert(key@, value@).contains_key(k) by {
        if options_of(ns).contains_key(k) {
            let j = choose|j: int| 0 <= j < ns.len() && (#[trigger] ns[j]).0@ == k;
            assert(es[j].0@ == k);
        }
        if options_of(es).contains_key(k) {
            let j = choose|j: int| 0 <= j < es.len() && (#[trigger] es[j]).0@ == k;
            assert(ns[j].0@ == k);
        }
        if k == key@ {
            assert(ns[i].0@ == k);
        }
    }
    assert forall|k: Seq<char>| options_of(ns).contains_key(k) implies options_of(ns)[k]
        == options_of(es).insert(key@, value@)[k] by {
        let j = choose|j: int| 0 <= j < ns.len() && (#[trigger] ns[j]).0@ == k;
        lemma_options_at(ns, j);
        if k != key@ {
            assert(es[j] == ns[j]);
            lemma_options_at(es, j);
        }
    }
    assert(options_of(ns) =~= options_of(es).insert(key@, value@));
}

/// Adding an entry under a name that no entry has keeps the names distinct
/// and sets the name to the new value.
proof fn lemma_appended(
    es: Seq<(&'static str, &'static str)>,
    key: &'static str,
    value: &'static str,
)
    requires
        distinct_names(es),
        forall|i: int| 0 <= i < es.len() ==> (#[trigger] es[i]).0@ != key@,
    ensures
        distinct_names(es.push((key, value))),
        options_of(es.push((key, value))) == options_of(es).insert(key@, value@),
{
    let ns = es.push((key, value));
    let n = es.len() as int;
    assert forall|a: int, b: int| 0 <= a < b < ns.len() implies (#[trigger] ns[a]).0@ != (
    #[trigger] ns[b]).0@ by {
        assert(ns[a] == es[a]);
        if b < n {
            assert(ns[b] == es[b]);
        }
    }
    assert forall|k: Seq<char>|
        options_of(ns).contains_key(k) == options_of(es).insert(key@, value@).contains_key(k) by {
        if options_of(ns).contains_key(k) {
            let j = choose|j: int| 0 <= j < ns.len() && (#[trigger] ns[j]).0@ == k;
            if j < n {
                assert(es[j].0@ == k);
            }
        }
        if options_of(es).contains_key(k) {
            let j = choose|j: int| 0 <= j < es.len() && (#[trigger] es[j]).0@ == k;
            assert(ns[j].0@ == k);
        }
        if k == key@ {
            assert(ns[n].0@ == k);
        }
    }
    assert forall|k: Seq<char>| options_of(ns).contains_key(k) implies options_of(ns)[k]
        == options_of(es).insert(key@, value@)[k] by {
        let j = choose|j: int| 0 <= j < ns.len() && (#[trigger] ns[j]).0@ == k;
        lemma_options_at(ns, j);
        if k != key@ {
            assert(es[j] == ns[j]);
            lemma_options_at(es, j);
        }
    }
    assert(options_of(ns) =~= options_of(es).insert(key@, value@));
}

/// With distinct names, the entry at `i` is what its name stands for.
proof fn lemma_options_at(entries: Seq<(&'static str, &'static str)>, i: int)
    requires
        distinct_names(entries),
        0 <= i < entries.len(),
    ensures
        options_of(entries).contains_key(entries[i].0@),
        options_of(entries)[entries[i].0@] == entries[i].1@,
{
    let k = entries[i].0@;
    let j = choose|j: int| 0 <= j < entries.len() && (#[trigger] entries[j]).0@ == k;
    if j < i {
        assert(entries[j].0@ != entries[i].0@);
    }
    if i < j {
        assert(entries[i].0@ != entries[j].0@);
    }
}

} // verus!
