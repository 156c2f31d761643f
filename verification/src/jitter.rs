use crate::model::{AudioFrame, FrameView};
use std::collections::BTreeMap;
use vstd::std_specs::iter::IteratorSpec;
use vstd::prelude::*;

verus! {

broadcast use vstd::std_specs::btree::group_btree_axioms;

/// Frames ordered by strictly increasing sequence number.
pub open spec fn strictly_sorted(s: Seq<FrameView>) -> bool {
    forall|i: int, j: int| 0 <= i < j < s.len() ==> s[i].sequence < s[j].sequence
}

/// `i` is where sequence `k` belongs in `s`: every frame before it has a
/// smaller sequence number, and the frame at it (if any) does not.
pub open spec fn is_position(s: Seq<FrameView>, k: u64, i: int) -> bool {
    &&& 0 <= i <= s.len()
    &&& forall|j: int| 0 <= j < i ==> s[j].sequence < k
    &&& i < s.len() ==> s[i].sequence >= k
}

/// Where sequence `k` belongs in the sorted frames `s`.
pub open spec fn position_of(s: Seq<FrameView>, k: u64) -> int {
    choose|i: int| is_position(s, k, i)
}

/// `s` holds a frame with sequence `k`.
pub open spec fn holds_sequence(s: Seq<FrameView>, k: u64) -> bool {
    let p = position_of(s, k);
    p < s.len() && s[p].sequence == k
}

/// The sorted frames after storing `f`: it replaces a frame with the same
/// sequence number, or else is inserted in order.
pub open spec fn sorted_insert(s: Seq<FrameView>, f: FrameView) -> Seq<FrameView> {
    let p = position_of(s, f.sequence);
    if holds_sequence(s, f.sequence) {
        s.update(p, f)
    } else {
        s.insert(p, f)
    }
}

/// The sorted frames after taking out the frame with sequence `k`, if any.
pub open spec fn sorted_remove(s: Seq<FrameView>, k: u64) -> Seq<FrameView> {
    if holds_sequence(s, k) {
        s.remove(position_of(s, k))
    } else {
        s
    }
}

/// The position of a sequence number in sorted frames is unique.
pub proof fn lemma_position_unique(s: Seq<FrameView>, k: u64, i: int)
    requires
        strictly_sorted(s),
        is_position(s, k, i),
    ensures
        position_of(s, k) == i,
        is_position(s, k, position_of(s, k)),
{
    let p = position_of(s, k);
    assert(is_position(s, k, p));
    if p < i {
        assert(s[p].sequence < k);
    } else if i < p {
        assert(s[i].sequence < k);
    }
}

proof fn lemma_position_from(s: Seq<FrameView>, k: u64, i: int)
    requires
        0 <= i <= s.len(),
        forall|j: int| 0 <= j < i ==> s[j].sequence < k,
    ensures
        is_position(s, k, position_of(s, k)),
    decreases s.len() - i,
{
    if i == s.len() || s[i].sequence >= k {
        assert(is_position(s, k, i));
    } else {
        lemma_position_from(s, k, i + 1);
    }
}

/// Membership in sorted frames means some frame carries the number.
pub proof fn lemma_holds_sequence(s: Seq<FrameView>, k: u64)
    requires
        strictly_sorted(s),
    ensures
        holds_sequence(s, k) <==> exists|j: int| 0 <= j < s.len() && s[j].sequence == k,
        is_position(s, k, position_of(s, k)),
{
    lemma_position_from(s, k, 0);
    let i = position_of(s, k);
    if exists|j: int| 0 <= j < s.len() && s[j].sequence == k {
        let j = choose|j: int| 0 <= j < s.len() && s[j].sequence == k;
        if j < i {
        } else if j > i {
            assert(s[i].sequence < s[j].sequence);
        }
    }
}

/// `m` holds exactly the frames of `s`, each under its own sequence number.
pub open spec fn mirrors(m: Map<u64, AudioFrame>, s: Seq<FrameView>) -> bool {
    &&& strictly_sorted(s)
    &&& m.dom().finite()
    &&& m.dom().len() == s.len()
    &&& forall|j: int|
        #![trigger s[j]]
        0 <= j < s.len() ==> m.contains_key(s[j].sequence) && m[s[j].sequence]@ == s[j]
    &&& forall|k: u64|
        #[trigger] m.contains_key(k) ==> exists|j: int| 0 <= j < s.len() && s[j].sequence == k
}

/// Storing a frame under its sequence number stores it in order.
proof fn lemma_mirrors_insert(m: Map<u64, AudioFrame>, s: Seq<FrameView>, frame: AudioFrame)
    requires
        mirrors(m, s),
    ensures
        mirrors(m.insert(frame.sequence, frame), sorted_insert(s, frame@)),
{
    let f = frame@;
    let k = frame.sequence;
    lemma_holds_sequence(s, k);
    let p = position_of(s, k);
    let m2 = m.insert(k, frame);
    let t = sorted_insert(s, f);
    if holds_sequence(s, k) {
        assert(t == s.update(p, f));
        assert(m2.dom() =~= m.dom());
        assert forall|j: int| #![trigger t[j]] 0 <= j < t.len() implies m2.contains_key(
            t[j].sequence,
        ) && m2[t[j].sequence]@ == t[j] by {
            if j != p {
                if j < p {
                    assert(s[j].sequence < s[p].sequence);
                } else {
                    assert(s[p].sequence < s[j].sequence);
                }
            }
        }
        assert forall|q: u64| #[trigger] m2.contains_key(q) implies exists|j: int|
            0 <= j < t.len() && t[j].sequence == q by {
            if q == k {
                assert(t[p].sequence == q);
            } else {
                let j = choose|j: int| 0 <= j < s.len() && s[j].sequence == q;
                assert(t[j].sequence == q);
            }
        }
    } else {
        assert(t == s.insert(p, f));
        if m.contains_key(k) {
            let j = choose|j: int| 0 <= j < s.len() && s[j].sequence == k;
            assert(false);
        }
        assert(m2.dom() =~= m.dom().insert(k));
        assert forall|i: int, j: int| 0 <= i < j < t.len() implies t[i].sequence
            < t[j].sequence by {
            if j < p {
            } else if i < p && j == p {
            } else if i < p {
                assert(s[j - 1].sequence >= f.sequence);
                assert(s[i].sequence < f.sequence);
            } else if i == p {
                assert(s[p].sequence != f.sequence);
                assert(s[p].sequence >= f.sequence);
                if j - 1 > p {
                    assert(s[p].sequence < s[j - 1].sequence);
                }
            } else {
                assert(s[i - 1].sequence < s[j - 1].sequence);
            }
        }
        assert forall|j: int| #![trigger t[j]] 0 <= j < t.len() implies m2.contains_key(
            t[j].sequence,
        ) && m2[t[j].sequence]@ == t[j] by {
            if j < p {
                assert(t[j] == s[j]);
            } else if j > p {
                assert(t[j] == s[j - 1]);
            }
        }
        assert forall|q: u64| #[trigger] m2.contains_key(q) implies exists|j: int|
            0 <= j < t.len() && t[j].sequence == q by {
            if q == k {
                assert(t[p].sequence == q);
            } else {
                let j = choose|j: int| 0 <= j < s.len() && s[j].sequence == q;
                if j < p {
                    assert(t[j].sequence == q);
                } else {
                    assert(t[j + 1].sequence == q);
                }
            }
        }
    }
}

/// Taking out the frame stored under `k` takes it out of the order.
proof fn lemma_mirrors_remove(m: Map<u64, AudioFrame>, s: Seq<FrameView>, k: u64)
    requires
        mirrors(m, s),
    ensures
        mirrors(m.remove(k), sorted_remove(s, k)),
        holds_sequence(s, k) <==> m.contains_key(k),
        holds_sequence(s, k) ==> m[k]@ == s[position_of(s, k)],
{
    lemma_holds_sequence(s, k);
    let p = position_of(s, k);
    let m2 = m.remove(k);
    let t = sorted_remove(s, k);
    if holds_sequence(s, k) {
        assert(s[p].sequence == k);
        assert(t == s.remove(p));
        assert(m2.dom() =~= m.dom().remove(k));
        assert forall|i: int, j: int| 0 <= i < j < t.len() implies t[i].sequence
            < t[j].sequence by {
            if i < p && j >= p {
                assert(s[i].sequence < s[j + 1].sequence);
            } else if i >= p {
                assert(s[i + 1].sequence < s[j + 1].sequence);
            }
        }
        assert forall|j: int| #![trigger t[j]] 0 <= j < t.len() implies m2.contains_key(
            t[j].sequence,
        ) && m2[t[j].sequence]@ == t[j] by {
            if j < p {
                assert(t[j] == s[j]);
                assert(s[j].sequence < s[p].sequence);
            } else {
                assert(t[j] == s[j + 1]);
                assert(s[p].sequence < s[j + 1].sequence);
            }
        }
        assert forall|q: u64| #[trigger] m2.contains_key(q) implies exists|j: int|
            0 <= j < t.len() && t[j].sequence == q by {
            let j = choose|j: int| 0 <= j < s.len() && s[j].sequence == q;
            if j < p {
                assert(t[j].sequence == q);
            } else {
                assert(j != p);
                assert(t[j - 1].sequence == q);
            }
        }
    } else {
        if m.contains_key(k) {
            let j = choose|j: int| 0 <= j < s.len() && s[j].sequence == k;
            assert(false);
        }
        assert(m2 =~= m);
    }
}

/// The frames received ahead of playback, stored by sequence number. Its
/// view lists them in sequence order.
pub struct JitterBuffer {
    frames: BTreeMap<u64, AudioFrame>,
    order: Ghost<Seq<FrameView>>,
}

impl View for JitterBuffer {
    type V = Seq<FrameView>;

    closed spec fn view(&self) -> Seq<FrameView> {
        self.order@
    }
}

impl JitterBuffer {
    /// The map holds exactly the frames of the view.
    pub closed spec fn wf(&self) -> bool {
        mirrors(self.frames@, self.order@)
    }

    /// A well-formed buffer lists its frames in strictly increasing order.
    pub proof fn lemma_sorted(&self)
        requires
            self.wf(),
        ensures
            strictly_sorted(self@),
    {
    }

    /// An empty buffer.
    pub fn new() -> (r: Self)
        ensures
            r.wf(),
            r@ == Seq::<FrameView>::empty(),
    {
        let r = JitterBuffer { frames: BTreeMap::new(), order: Ghost(Seq::empty()) };
        assert(r.frames@.dom() =~= Set::<u64>::empty());
        r
    }

    /// Number of buffered frames.
    pub fn len(&self) -> (n: usize)
        requires
            self.wf(),
        ensures
            n == self@.len(),
    {
        proof {
            broadcast use vstd::laws_cmp::group_laws_cmp;

            assert(vstd::std_specs::btree::key_obeys_cmp_spec::<u64>());
        }
        self.frames.len()
    }

    /// Stores `frame`, replacing a buffered frame with the same sequence.
    pub fn insert(&mut self, frame: AudioFrame)
        requires
            old(self).wf(),
        ensures
            final(self).wf(),
            final(self)@ == sorted_insert(old(self)@, frame@),
    {
        proof {
            broadcast use vstd::laws_cmp::group_laws_cmp;

            lemma_mirrors_insert(self.frames@, self.order@, frame);
        }
        let ghost t = sorted_insert(self.order@, frame@);
        let k = frame.sequence;
        let _ = self.frames.insert(k, frame);
        self.order = Ghost(t);
    }

    /// Takes out the frame with sequence `k`, if one is buffered.
    pub fn remove(&mut self, k: u64) -> (r: Option<AudioFrame>)
        requires
            old(self).wf(),
        ensures
            final(self).wf(),
            final(self)@ == sorted_remove(old(self)@, k),
            match r {
                Some(f) => holds_sequence(old(self)@, k) && f@ == old(self)@[position_of(
                    old(self)@,
                    k,
                )],
                None => !holds_sequence(old(self)@, k),
            },
    {
        proof {
            broadcast use vstd::laws_cmp::group_laws_cmp;

            lemma_mirrors_remove(self.frames@, self.order@, k);
        }
        let ghost t = sorted_remove(self.order@, k);
        let r = self.frames.remove(&k);
        self.order = Ghost(t);
        r
    }

    /// The smallest buffered sequence number, if any.
    pub fn first_sequence(&self) -> (r: Option<u64>)
        requires
            self.wf(),
        ensures
            match r {
                Some(k) => self@.len() > 0 && k == self@[0].sequence,
                None => self@.len() == 0,
            },
    {
        let r = first_key(&self.frames);
        proof {
            let s = self.order@;
            match r {
                Some(k) => {
                    let j = choose|j: int| 0 <= j < s.len() && s[j].sequence == k;
                    assert(self.frames@.contains_key(s[0].sequence));
                    if j > 0 {
                        assert(s[0].sequence < s[j].sequence);
                    }
                },
                None => {},
            }
        }
        r
    }

    /// Takes out the frame with the smallest sequence number.
    pub fn pop_first(&mut self) -> (r: AudioFrame)
        requires
            old(self).wf(),
            old(self)@.len() > 0,
        ensures
            final(self).wf(),
            r@ == old(self)@[0],
            final(self)@ == old(self)@.drop_first(),
    {
        let ghost s = self.order@;
        let k = match self.first_sequence() {
            Some(k) => k,
            None => 0,
        };
        proof {
            assert(is_position(s, k, 0));
            lemma_position_unique(s, k, 0);
            assert(s.remove(0) =~= s.drop_first());
        }
        let r = self.remove(k);
        r.unwrap()
    }

    /// The largest buffered sequence number, if any.
    pub fn last_sequence(&self) -> (r: Option<u64>)
        requires
            self.wf(),
        ensures
            match r {
                Some(k) => self@.len() > 0 && k == self@.last().sequence,
                None => self@.len() == 0,
            },
    {
        let r = last_key(&self.frames);
        proof {
            let s = self.order@;
            match r {
                Some(k) => {
                    let j = choose|j: int| 0 <= j < s.len() && s[j].sequence == k;
                    assert(self.frames@.contains_key(s.last().sequence));
                    if j < s.len() - 1 {
                        assert(s[j].sequence < s[s.len() - 1].sequence);
                    }
                },
                None => {},
            }
        }
        r
    }
}

/// The smallest key of `m`, if any.
fn first_key(m: &BTreeMap<u64, AudioFrame>) -> (r: Option<u64>)
    ensures
        match r {
            Some(k) => m@.contains_key(k) && forall|j: u64| m@.contains_key(j) ==> k <= j,
            None => m@.dom().len() == 0,
        },
{
    broadcast use vstd::laws_cmp::group_laws_cmp;

    let ghost rem = vstd::std_specs::btree::spec_keys_iter(m).remaining();
    proof {
        assert(vstd::std_specs::btree::key_obeys_cmp_spec::<u64>());
        assert(vstd::laws_cmp::obeys_cmp::<&u64>());
        assert(vstd::std_specs::btree::increasing_seq(rem));
    }
    for k in it: m.keys()
        invariant
            it.index() == 0,
            it.seq() == rem,
            rem.unref().to_set() == m@.dom(),
            rem.len() == m@.dom().len(),
            vstd::std_specs::btree::increasing_seq(rem),
            vstd::laws_cmp::obeys_cmp::<&u64>(),
    {
        proof {
            assert forall|j: u64| m@.contains_key(j) implies *k <= j by {
                assert(rem.unref().to_set().contains(j));
                let i = choose|i: int| 0 <= i < rem.unref().len() && rem.unref()[i] == j;
                assert(*rem[i] == j);
                if i > 0 {
                    assert(vstd::std_specs::cmp::OrdSpec::cmp_spec(&rem[0], &rem[i]) is Less);
                }
            }
            assert(rem.unref().to_set().contains(*k));
        }
        return Some(*k);
    }
    None
}

/// The largest key of `m`, if any.
fn last_key(m: &BTreeMap<u64, AudioFrame>) -> (r: Option<u64>)
    ensures
        match r {
            Some(k) => m@.contains_key(k) && forall|j: u64| m@.contains_key(j) ==> j <= k,
            None => m@.dom().len() == 0,
        },
{
    broadcast use vstd::laws_cmp::group_laws_cmp;

    let ghost rem = vstd::std_specs::btree::spec_keys_iter(m).remaining();
    proof {
        assert(vstd::std_specs::btree::key_obeys_cmp_spec::<u64>());
        assert(vstd::laws_cmp::obeys_cmp::<&u64>());
        assert(vstd::std_specs::btree::increasing_seq(rem));
    }
    let mut last: Option<u64> = None;
    for k in it: m.keys()
        invariant
            it.seq() == rem,
            last == (if it.index() == 0 {
                None
            } else {
                Some(*rem[it.index() - 1])
            }),
    {
        last = Some(*k);
    }
    proof {
        assert forall|j: u64| m@.contains_key(j) implies j <= *rem[rem.len() - 1] by {
            assert(rem.unref().to_set().contains(j));
            let i = choose|i: int| 0 <= i < rem.unref().len() && rem.unref()[i] == j;
            assert(*rem[i] == j);
            assert(i < rem.len() - 1 ==> vstd::std_specs::cmp::OrdSpec::cmp_spec(
                &rem[i],
                &rem[rem.len() - 1],
            ) is Less);
        }
        assert(rem.len() > 0 ==> rem.unref()[rem.len() - 1] == *rem[rem.len() - 1]);
        assert(rem.len() > 0 ==> rem.unref().contains(*rem[rem.len() - 1]));
        assert(rem.len() > 0 ==> rem.unref().to_set().contains(*rem[rem.len() - 1]));
    }
    last
}

} // verus!
