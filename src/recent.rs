//! The recency list of destination folders: most recent first, no path twice,
//! at most five paths.
//!
//! Reading and writing the stored copy is the caller's part: it hands in the
//! paths it read (none where the read failed) and stores the list it gets back.
use vstd::prelude::*;

verus! {

/// How many destinations the list keeps.
pub const MAX_RECENT: usize = 5;

/// The destinations, most recently used first.
pub struct RecentDestinations {
    entries: Vec<String>,
}

/// At most `MAX_RECENT` paths, none twice.
pub open spec fn recent_wf(l: Seq<Seq<char>>) -> bool {
    l.len() <= MAX_RECENT && l.no_duplicates()
}

/// Holds of every path but `p`.
pub open spec fn differs_from(p: Seq<char>) -> spec_fn(Seq<char>) -> bool {
    |q: Seq<char>| q != p
}

/// The first `MAX_RECENT` paths of `l`.
pub open spec fn capped(l: Seq<Seq<char>>) -> Seq<Seq<char>> {
    if l.len() > MAX_RECENT {
        l.subrange(0, MAX_RECENT as int)
    } else {
        l
    }
}

/// The list after `p` is used: `p` first, then the others in their order,
/// cut to `MAX_RECENT` paths.
pub open spec fn with_recent(l: Seq<Seq<char>>, p: Seq<char>) -> Seq<Seq<char>> {
    capped(seq![p] + l.filter(differs_from(p)))
}

/// The list read from storage: the first occurrence of each path, and of
/// those the first `MAX_RECENT`.
pub open spec fn normalized(l: Seq<Seq<char>>) -> Seq<Seq<char>>
    decreases l.len(),
{
    if l.len() == 0 {
        l
    } else {
        let r = normalized(l.drop_last());
        if r.contains(l.last()) || r.len() >= MAX_RECENT {
            r
        } else {
            r.push(l.last())
        }
    }
}

/// The views of a vector of strings.
pub open spec fn texts(v: Seq<String>) -> Seq<Seq<char>> {
    v.map_values(|s: String| s@)
}

impl View for RecentDestinations {
    type V = Seq<Seq<char>>;

    closed spec fn view(&self) -> Seq<Seq<char>> {
        texts(self.entries@)
    }
}

/// Filtering a sequence with one more element at its end.
proof fn lemma_filter_push(s: Seq<Seq<char>>, x: Seq<char>, f: spec_fn(Seq<char>) -> bool)
    ensures
        s.push(x).filter(f) == if f(x) {
            s.filter(f).push(x)
        } else {
            s.filter(f)
        },
{
    reveal(Seq::filter);
    assert(s.push(x).drop_last() =~= s);
}

/// Taking out a path that is not there changes nothing.
proof fn lemma_without_absent(s: Seq<Seq<char>>, p: Seq<char>)
    requires
        !s.contains(p),
    ensures
        s.filter(differs_from(p)) == s,
    decreases s.len(),
{
    reveal(Seq::filter);
    if s.len() > 0 {
        let t = s.drop_last();
        assert(!t.contains(p)) by {
            if t.contains(p) {
                let k = choose|k: int| 0 <= k < t.len() && t[k] == p;
                assert(s[k] == p);
            }
        }
        lemma_without_absent(t, p);
        assert(s.last() != p);
        assert(t.push(s.last()) =~= s);
    }
}

/// Taking out a path that occurs once, at `i`, removes that position.
proof fn lemma_without_present(s: Seq<Seq<char>>, p: Seq<char>, i: int)
    requires
        s.no_duplicates(),
        0 <= i < s.len(),
        s[i] == p,
    ensures
        s.filter(differs_from(p)) == s.remove(i),
    decreases s.len(),
{
    let t = s.drop_last();
    assert(t.push(s.last()) =~= s);
    lemma_filter_push(t, s.last(), differs_from(p));
    if i == s.len() - 1 {
        assert(!t.contains(p)) by {
            if t.contains(p) {
                let k = choose|k: int| 0 <= k < t.len() && t[k] == p;
                assert(s[k] == s[i]);
            }
        }
        lemma_without_absent(t, p);
        assert(s.remove(i) =~= t);
    } else {
        assert(s.last() != p);
        lemma_without_present(t, p, i);
        assert(t.remove(i).push(s.last()) =~= s.remove(i));
    }
}

/// The list after a use, in the two cases: `p` was on the list at `i`, or not.
proof fn lemma_with_recent_cases(l: Seq<Seq<char>>, p: Seq<char>)
    requires
        recent_wf(l),
    ensures
        recent_wf(with_recent(l, p)),
        with_recent(l, p)[0] == p,
        forall|i: int|
            0 <= i < l.len() && l[i] == p ==> with_recent(l, p) == seq![p] + l.remove(i),
        !l.contains(p) ==> with_recent(l, p) == capped(seq![p] + l),
{
    if l.contains(p) {
        let i = choose|i: int| 0 <= i < l.len() && l[i] == p;
        lemma_without_present(l, p, i);
        let r = seq![p] + l.remove(i);
        assert(r.len() <= MAX_RECENT);
        assert(r.no_duplicates()) by {
            assert forall|a: int, b: int| 0 <= a < r.len() && 0 <= b < r.len() && a != b implies r[a]
                != r[b] by {
                let a0 = if a == 0 { i } else if a - 1 < i { a - 1 } else { a };
                let b0 = if b == 0 { i } else if b - 1 < i { b - 1 } else { b };
                assert(r[a] == l[a0]);
                assert(r[b] == l[b0]);
            }
        }
        assert forall|j: int| 0 <= j < l.len() && l[j] == p implies with_recent(l, p) == seq![p]
            + l.remove(j) by {
            assert(j == i);
        }
    } else {
        lemma_without_absent(l, p);
        let r = seq![p] + l;
        let c = capped(r);
        assert(c.no_duplicates()) by {
            assert forall|a: int, b: int| 0 <= a < c.len() && 0 <= b < c.len() && a != b implies c[a]
                != c[b] by {
                assert(c[a] == r[a] && c[b] == r[b]);
                if a == 0 {
                    assert(r[b] == l[b - 1]);
                } else if b == 0 {
                    assert(r[a] == l[a - 1]);
                } else {
                    assert(r[a] == l[a - 1] && r[b] == l[b - 1]);
                }
            }
        }
    }
}

/// Using a path that is on the list moves it to the front and keeps the
/// others in their order: the length stays and no path appears twice.
pub proof fn lemma_reuse_moves_to_front(l: Seq<Seq<char>>, i: int)
    requires
        recent_wf(l),
        0 <= i < l.len(),
    ensures
        with_recent(l, l[i]) == seq![l[i]] + l.remove(i),
        with_recent(l, l[i]).len() == l.len(),
        with_recent(l, l[i]).no_duplicates(),
{
    lemma_with_recent_cases(l, l[i]);
}

/// Every use leaves a well-formed list: at most `MAX_RECENT` paths, none twice.
pub proof fn lemma_use_keeps_list_bounded(l: Seq<Seq<char>>, p: Seq<char>)
    requires
        recent_wf(l),
    ensures
        recent_wf(with_recent(l, p)),
        with_recent(l, p).len() <= MAX_RECENT,
{
    lemma_with_recent_cases(l, p);
}

/// Using a new path when the list is full drops the oldest path.
pub proof fn lemma_new_path_evicts_oldest(l: Seq<Seq<char>>, p: Seq<char>)
    requires
        recent_wf(l),
        l.len() == MAX_RECENT,
        !l.contains(p),
    ensures
        with_recent(l, p) == seq![p] + l.subrange(0, MAX_RECENT - 1),
        !with_recent(l, p).contains(l[MAX_RECENT - 1]),
{
    lemma_with_recent_cases(l, p);
    assert(with_recent(l, p) =~= seq![p] + l.subrange(0, MAX_RECENT - 1));
    let r = with_recent(l, p);
    if r.contains(l[MAX_RECENT - 1]) {
        let k = choose|k: int| 0 <= k < r.len() && r[k] == l[MAX_RECENT - 1];
        if k > 0 {
            assert(r[k] == l[k - 1]);
        }
    }
}

/// A list read from storage is well formed.
proof fn lemma_normalized_wf(l: Seq<Seq<char>>)
    ensures
        recent_wf(normalized(l)),
    decreases l.len(),
{
    if l.len() > 0 {
        lemma_normalized_wf(l.drop_last());
    }
}

/// A well-formed list reads back as itself.
proof fn lemma_normalized_of_wf(l: Seq<Seq<char>>)
    requires
        recent_wf(l),
    ensures
        normalized(l) == l,
    decreases l.len(),
{
    if l.len() > 0 {
        let t = l.drop_last();
        assert(recent_wf(t));
        lemma_normalized_of_wf(t);
        assert(!t.contains(l.last())) by {
            if t.contains(l.last()) {
                let k = choose|k: int| 0 <= k < t.len() && t[k] == l.last();
                assert(l[k] == l[l.len() - 1]);
            }
        }
        assert(t.push(l.last()) =~= l);
    }
}

/// Storing the list and reading it back gives the same list: two reads with
/// no use in between return identical lists.
pub proof fn lemma_reload_is_stable(stored: Seq<Seq<char>>)
    ensures
        normalized(normalized(stored)) == normalized(stored),
{
    lemma_normalized_wf(stored);
    lemma_normalized_of_wf(normalized(stored));
}

impl RecentDestinations {
    /// The list is well formed.
    pub open spec fn wf(&self) -> bool {
        recent_wf(self@)
    }

    /// An empty list, as when nothing could be read from storage.
    pub fn new() -> (r: RecentDestinations)
        ensures
            r.wf(),
            r@ == Seq::<Seq<char>>::empty(),
    {
        let r = RecentDestinations { entries: Vec::new() };
        assert(r@ =~= Seq::<Seq<char>>::empty());
        r
    }

    /// The list from the paths read from storage.
    pub fn from_stored(stored: Vec<String>) -> (r: RecentDestinations)
        ensures
            r.wf(),
            r@ == normalized(texts(stored@)),
    {
        let ghost seen = texts(stored@);
        let mut out: Vec<String> = Vec::new();
        let mut i: usize = 0;
        while i < stored.len()
            invariant
                i <= stored@.len(),
                seen == texts(stored@),
                texts(out@) == normalized(seen.subrange(0, i as int)),
            decreases stored@.len() - i,
        {
            assert(seen.subrange(0, i + 1).drop_last() =~= seen.subrange(0, i as int));
            let s = &stored[i];
            if out.len() < MAX_RECENT && !contains_text(&out, s) {
                let ghost before = texts(out@);
                out.push(s.clone());
                assert(texts(out@) =~= before.push(s@));
            }
            i += 1;
        }
        assert(seen.subrange(0, i as int) =~= seen);
        proof {
            lemma_normalized_wf(seen);
        }
        RecentDestinations { entries: out }
    }

    /// The destinations, most recently used first.
    pub fn get_recent_destinations(&self) -> (r: Vec<String>)
        ensures
            texts(r@) == self@,
    {
        let mut out: Vec<String> = Vec::new();
        let mut i: usize = 0;
        while i < self.entries.len()
            invariant
                i <= self.entries@.len(),
                texts(out@) == texts(self.entries@).subrange(0, i as int),
            decreases self.entries@.len() - i,
        {
            let ghost before = texts(out@);
            out.push(self.entries[i].clone());
            assert(texts(out@) =~= before.push(self.entries@[i as int]@));
            assert(texts(self.entries@).subrange(0, i + 1) =~= before.push(self.entries@[i as int]@));
            i += 1;
        }
        assert(texts(self.entries@).subrange(0, i as int) =~= texts(self.entries@));
        out
    }

    /// Records a use of `path`: it moves to the front, any earlier entry of it
    /// goes, and the list keeps its first `MAX_RECENT` paths.
    pub fn add_recent_destination(&mut self, path: String)
        requires
            old(self).wf(),
        ensures
            final(self).wf(),
            final(self)@ == with_recent(old(self)@, path@),
    {
        let ghost before = self@;
        let ghost keep = differs_from(path@);
        let mut out: Vec<String> = Vec::new();
        out.push(path.clone());
        assert(before.subrange(0, 0).filter(keep) =~= Seq::<Seq<char>>::empty()) by {
            reveal(Seq::filter);
        }
        assert(texts(out@) =~= seq![path@] + before.subrange(0, 0).filter(keep));
        let mut i: usize = 0;
        while i < self.entries.len()
            invariant
                i <= self.entries@.len(),
                before == texts(self.entries@),
                keep == differs_from(path@),
                texts(out@) == seq![path@] + before.subrange(0, i as int).filter(keep),
            decreases self.entries@.len() - i,
        {
            let e = &self.entries[i];
            proof {
                assert(before.subrange(0, i + 1) =~= before.subrange(0, i as int).push(e@));
                lemma_filter_push(before.subrange(0, i as int), e@, keep);
            }
            if !(*e == path) {
                let ghost prev = texts(out@);
                out.push(e.clone());
                assert(texts(out@) =~= prev.push(e@));
            }
            i += 1;
        }
        assert(before.subrange(0, i as int) =~= before);
        let ghost full = texts(out@);
        out.truncate(MAX_RECENT);
        assert(texts(out@) =~= capped(full));
        self.entries = out;
        proof {
            lemma_with_recent_cases(before, path@);
        }
    }
}

/// Whether `v` holds a string with the characters of `s`.
fn contains_text(v: &Vec<String>, s: &String) -> (r: bool)
    ensures
        r == texts(v@).contains(s@),
{
    let mut i: usize = 0;
    while i < v.len()
        invariant
            i <= v@.len(),
            forall|j: int| 0 <= j < i ==> v@[j]@ != s@,
        decreases v@.len() - i,
    {
        if v[i] == *s {
            assert(texts(v@)[i as int] == s@);
            return true;
        }
        i += 1;
    }
    assert forall|j: int| 0 <= j < texts(v@).len() implies texts(v@)[j] != s@ by {
        assert(texts(v@)[j] == v@[j]@);
    }
    false
}

} // verus!
