use vstd::prelude::*;

use crate::text::{SPACE, is_space, is_space_byte, bytes_equal, push_all};

verus! {

/// Number of bytes that the store can hold.
pub const CAPACITY: usize = 1920;

/// The tokens completed so far and the token being read, after a left-to-right
/// scan of `s`.
pub open spec fn scan(s: Seq<u8>) -> (Seq<Seq<u8>>, Seq<u8>)
    decreases s.len(),
{
    if s.len() == 0 {
        (Seq::empty(), Seq::empty())
    } else {
        let (done, cur) = scan(s.drop_last());
        if is_space(s.last()) {
            if cur.len() > 0 {
                (done.push(cur), Seq::empty())
            } else {
                (done, Seq::empty())
            }
        } else {
            (done, cur.push(s.last()))
        }
    }
}

/// The maximal runs of non-whitespace bytes of `s`, in order.
pub open spec fn tokens(s: Seq<u8>) -> Seq<Seq<u8>> {
    let (done, cur) = scan(s);
    if cur.len() > 0 {
        done.push(cur)
    } else {
        done
    }
}

/// Each token followed by one space.
pub open spec fn joined(toks: Seq<Seq<u8>>) -> Seq<u8>
    decreases toks.len(),
{
    if toks.len() == 0 {
        Seq::empty()
    } else {
        joined(toks.drop_last()) + toks.last().push(SPACE)
    }
}

/// `toks` without the first occurrence of `t`.
pub open spec fn remove_first(toks: Seq<Seq<u8>>, t: Seq<u8>) -> Seq<Seq<u8>>
    decreases toks.len(),
{
    if toks.len() == 0 {
        toks
    } else if toks[0] == t {
        toks.drop_first()
    } else {
        seq![toks[0]] + remove_first(toks.drop_first(), t)
    }
}

/// The content after removing `token`: the remaining tokens, each followed by one
/// space, when `token` is one of the tokens; the content unchanged otherwise.
pub open spec fn removed(content: Seq<u8>, token: Seq<u8>) -> Seq<u8> {
    if tokens(content).contains(token) {
        joined(remove_first(tokens(content), token))
    } else {
        content
    }
}

/// Appending `text` to `content` runs past the capacity.
pub open spec fn overflows(content: Seq<u8>, text: Seq<u8>) -> bool {
    text.len() > 0 && content.len() + text.len() > CAPACITY
}

/// The content after appending `text`: as much of it as fits, then one space if
/// all of it was copied and room is left.
pub open spec fn appended(content: Seq<u8>, text: Seq<u8>) -> Seq<u8> {
    if text.len() == 0 {
        content
    } else if content.len() + text.len() > CAPACITY {
        content + text.take(CAPACITY - content.len())
    } else if content.len() + text.len() < CAPACITY {
        content + text.push(SPACE)
    } else {
        content + text
    }
}

proof fn lemma_joined_concat(a: Seq<Seq<u8>>, b: Seq<Seq<u8>>)
    ensures
        joined(a + b) == joined(a) + joined(b),
    decreases b.len(),
{
    if b.len() == 0 {
        assert(a + b =~= a);
        assert(joined(b) =~= Seq::<u8>::empty());
        assert(joined(a) + joined(b) =~= joined(a));
    } else {
        lemma_joined_concat(a, b.drop_last());
        assert((a + b).drop_last() =~= a + b.drop_last());
        assert(joined(a) + joined(b) =~= joined(a) + joined(b.drop_last()) + b.last().push(
            SPACE,
        ));
    }
}

proof fn lemma_joined_remove(a: Seq<Seq<u8>>, j: int)
    requires
        0 <= j < a.len(),
    ensures
        joined(a.remove(j)).len() + a[j].len() + 1 == joined(a).len(),
{
    let x = a.take(j);
    let y = a.skip(j + 1);
    assert(a =~= x + seq![a[j]] + y);
    assert(a.remove(j) =~= x + y);
    lemma_joined_concat(x, y);
    lemma_joined_concat(x + seq![a[j]], y);
    lemma_joined_concat(x, seq![a[j]]);
    let one = seq![a[j]];
    assert(one.drop_last() =~= Seq::<Seq<u8>>::empty());
    assert(joined(one.drop_last()) =~= Seq::<u8>::empty());
    assert(joined(one) =~= a[j].push(SPACE));
}

proof fn lemma_scan_bounds(s: Seq<u8>)
    ensures
        joined(scan(s).0).len() + scan(s).1.len() <= s.len(),
        forall|k: int| 0 <= k < scan(s).0.len() ==> scan(s).0[k].len() > 0,
    decreases s.len(),
{
    if s.len() > 0 {
        lemma_scan_bounds(s.drop_last());
        let (done, cur) = scan(s.drop_last());
        if is_space(s.last()) && cur.len() > 0 {
            assert(done.push(cur).drop_last() =~= done);
        }
    }
}

/// Every token is non-empty, and the tokens each followed by one space take at
/// most one byte more than the text they come from.
pub proof fn lemma_tokens_bounds(s: Seq<u8>)
    ensures
        joined(tokens(s)).len() <= s.len() + 1,
        forall|k: int| 0 <= k < tokens(s).len() ==> tokens(s)[k].len() > 0,
{
    lemma_scan_bounds(s);
    let (done, cur) = scan(s);
    if cur.len() > 0 {
        assert(done.push(cur).drop_last() =~= done);
    }
}

proof fn lemma_remove_first_at(toks: Seq<Seq<u8>>, t: Seq<u8>, j: int)
    requires
        0 <= j < toks.len(),
        toks[j] == t,
        forall|k: int| 0 <= k < j ==> toks[k] != t,
    ensures
        remove_first(toks, t) == toks.remove(j),
    decreases j,
{
    if j > 0 {
        lemma_remove_first_at(toks.drop_first(), t, j - 1);
        assert(seq![toks[0]] + toks.drop_first().remove(j - 1) =~= toks.remove(j));
    } else {
        assert(toks.drop_first() =~= toks.remove(0));
    }
}

proof fn lemma_bytes_deep_view(v: Vec<u8>)
    ensures
        v.deep_view() == v@,
{
    assert(v.deep_view() =~= v@);
}

proof fn lemma_push_deep_view(before: Seq<Seq<u8>>, after: Vec<Vec<u8>>, c: Seq<u8>)
    requires
        after@.len() == before.len() + 1,
        forall|k: int| 0 <= k < before.len() ==> #[trigger] after@[k].deep_view() == before[k],
        after@.last()@ == c,
    ensures
        after.deep_view() == before.push(c),
{
    lemma_bytes_deep_view(after@.last());
    assert(after.deep_view() =~= before.push(c));
}

/// Splits `s` into its tokens.
pub fn split_tokens(s: &[u8]) -> (r: Vec<Vec<u8>>)
    ensures
        r.deep_view() == tokens(s@),
{
    let mut done: Vec<Vec<u8>> = Vec::new();
    let mut cur: Vec<u8> = Vec::new();
    let mut i: usize = 0;
    while i < s.len()
        invariant
            i <= s@.len(),
            done.deep_view() == scan(s@.take(i as int)).0,
            cur@ == scan(s@.take(i as int)).1,
        decreases s@.len() - i,
    {
        let b = s[i];
        assert(s@.take(i + 1).drop_last() =~= s@.take(i as int));
        if is_space_byte(b) {
            if cur.len() > 0 {
                let ghost before = done.deep_view();
                let ghost c = cur@;
                done.push(cur);
                proof {
                    lemma_push_deep_view(before, done, c);
                }
                cur = Vec::new();
            }
        } else {
            cur.push(b);
        }
        i = i + 1;
    }
    assert(s@.take(i as int) =~= s@);
    if cur.len() > 0 {
        let ghost before = done.deep_view();
        let ghost c = cur@;
        done.push(cur);
        proof {
            lemma_push_deep_view(before, done, c);
        }
    }
    done
}

/// Appending a text that fits with room to spare stores it followed by one space;
/// on an empty store, listing then gives exactly the text and the space.
pub proof fn lemma_append_round_trip(content: Seq<u8>, text: Seq<u8>)
    requires
        text.len() > 0,
        content.len() + text.len() < CAPACITY,
    ensures
        !overflows(content, text),
        appended(content, text) == content + text.push(SPACE),
        appended(Seq::empty(), text) == text.push(SPACE),
{
    assert(Seq::<u8>::empty() + text.push(SPACE) =~= text.push(SPACE));
}

proof fn lemma_scan_word(t: Seq<u8>)
    requires
        forall|i: int| 0 <= i < t.len() ==> !is_space(#[trigger] t[i]),
    ensures
        scan(t) == (Seq::<Seq<u8>>::empty(), t),
    decreases t.len(),
{
    if t.len() > 0 {
        lemma_scan_word(t.drop_last());
        assert(t.drop_last().push(t.last()) =~= t);
    }
}

/// A store holding exactly one token and its space is emptied by removing that
/// token; removing it again from the empty store finds nothing.
pub proof fn lemma_remove_sole_token(t: Seq<u8>)
    requires
        t.len() > 0,
        forall|i: int| 0 <= i < t.len() ==> !is_space(#[trigger] t[i]),
    ensures
        tokens(t.push(SPACE)) == seq![t],
        tokens(t.push(SPACE)).contains(t),
        removed(t.push(SPACE), t) == Seq::<u8>::empty(),
        !tokens(Seq::empty()).contains(t),
        removed(Seq::empty(), t) == Seq::<u8>::empty(),
{
    lemma_scan_word(t);
    assert(t.push(SPACE).drop_last() =~= t);
    let toks = tokens(t.push(SPACE));
    assert(toks =~= seq![t]);
    assert(toks[0] == t);
    assert(remove_first(toks, t) =~= Seq::<Seq<u8>>::empty());
    assert(tokens(Seq::<u8>::empty()) =~= Seq::<Seq<u8>>::empty());
}

/// Appending a text longer than the `k` bytes of room left copies exactly those
/// `k` bytes, reports the overflow and adds no space: the store is then full.
pub proof fn lemma_append_at_capacity(content: Seq<u8>, text: Seq<u8>, k: int)
    requires
        0 <= k <= CAPACITY,
        content.len() == CAPACITY - k,
        text.len() > k,
    ensures
        overflows(content, text),
        appended(content, text) == content + text.take(k),
        appended(content, text).len() == CAPACITY,
{
}

/// A fixed-capacity, append-only text of whitespace-separated tokens.
pub struct TextStore {
    content: Vec<u8>,
}

impl View for TextStore {
    type V = Seq<u8>;

    closed spec fn view(&self) -> Seq<u8> {
        self.content@
    }
}

impl TextStore {
    /// The content never exceeds the capacity.
    pub open spec fn wf(&self) -> bool {
        self@.len() <= CAPACITY
    }

    /// Number of bytes held; never more than the capacity.
    pub fn len(&self) -> (n: usize)
        requires
            self.wf(),
        ensures
            n == self@.len(),
            n <= CAPACITY,
    {
        self.content.len()
    }

    pub fn new() -> (s: TextStore)
        ensures
            s@ == Seq::<u8>::empty(),
            s.wf(),
    {
        TextStore { content: Vec::new() }
    }

    /// The stored text.
    pub fn list(&self) -> (r: &[u8])
        ensures
            r@ == self@,
    {
        self.content.as_slice()
    }

    /// Empties the store.
    pub fn clear(&mut self)
        ensures
            final(self)@ == Seq::<u8>::empty(),
            final(self).wf(),
    {
        self.content = Vec::new();
    }

    /// Copies `text` in, byte by byte, until it is all copied or the store is full;
    /// then adds one space if room is left. Returns whether the store ran full
    /// before all of `text` was copied; what was copied stays.
    pub fn append(&mut self, text: &[u8]) -> (overflowed: bool)
        requires
            old(self).wf(),
        ensures
            final(self).wf(),
            overflowed == overflows(old(self)@, text@),
            final(self)@ == appended(old(self)@, text@),
    {
        if text.len() == 0 {
            return false;
        }
        let ghost start = self.content@;
        let mut i: usize = 0;
        while i < text.len()
            invariant
                i <= text@.len(),
                start.len() <= CAPACITY,
                self.content@ == start + text@.take(i as int),
                start.len() + i <= CAPACITY,
            ensures
                i < text@.len() ==> start.len() + i == CAPACITY,
            decreases text@.len() - i,
        {
            if self.content.len() >= CAPACITY {
                break;
            }
            self.content.push(text[i]);
            i = i + 1;
            assert(self.content@ =~= start + text@.take(i as int));
        }
        if i == text.len() {
            assert(text@.take(i as int) =~= text@);
        }
        let overflowed = i < text.len();
        if self.content.len() < CAPACITY {
            self.content.push(SPACE);
        }
        overflowed
    }

    /// Drops the first token equal to `token` and rebuilds the text from the
    /// others, each followed by one space. Returns whether `token` was found; when
    /// it was not, the store is unchanged.
    pub fn remove(&mut self, token: &[u8]) -> (found: bool)
        requires
            old(self).wf(),
        ensures
            final(self).wf(),
            found == tokens(old(self)@).contains(token@),
            final(self)@ == removed(old(self)@, token@),
    {
        let toks = split_tokens(self.content.as_slice());
        let ghost tv = toks.deep_view();
        let mut j: usize = 0;
        let mut found = false;
        while j < toks.len()
            invariant_except_break
                tv == toks.deep_view(),
                j <= toks@.len(),
                forall|k: int| 0 <= k < j ==> tv[k] != token@,
                !found,
            ensures
                j <= toks@.len(),
                forall|k: int| 0 <= k < j ==> tv[k] != token@,
                found ==> j < toks@.len() && tv[j as int] == token@,
                !found ==> j == toks@.len(),
            decreases toks@.len() - j,
        {
            proof {
                lemma_bytes_deep_view(toks@[j as int]);
            }
            if bytes_equal(toks[j].as_slice(), token) {
                found = true;
                break;
            }
            j = j + 1;
        }
        if !found {
            assert(!tv.contains(token@));
            return false;
        }
        proof {
            lemma_remove_first_at(tv, token@, j as int);
            lemma_tokens_bounds(self.content@);
            lemma_joined_remove(tv, j as int);
        }
        let mut rebuilt: Vec<u8> = Vec::new();
        let mut i: usize = 0;
        while i < toks.len()
            invariant
                tv == toks.deep_view(),
                j < toks@.len(),
                i <= toks@.len(),
                rebuilt@ == joined(
                    if i <= j {
                        tv.take(i as int)
                    } else {
                        tv.take(i as int).remove(j as int)
                    },
                ),
            decreases toks@.len() - i,
        {
            if i != j {
                proof {
                    lemma_bytes_deep_view(toks@[i as int]);
                }
                push_all(&mut rebuilt, toks[i].as_slice());
                rebuilt.push(SPACE);
                proof {
                    let prev = if i < j {
                        tv.take(i as int)
                    } else {
                        tv.take(i as int).remove(j as int)
                    };
                    let next = if i + 1 <= j {
                        tv.take(i + 1)
                    } else {
                        tv.take(i + 1).remove(j as int)
                    };
                    assert(next =~= prev.push(tv[i as int]));
                    assert(next.drop_last() =~= prev);
                    assert(rebuilt@ =~= joined(prev) + tv[i as int].push(SPACE));
                }
            } else {
                assert(tv.take(i + 1).remove(j as int) =~= tv.take(i as int));
            }
            i = i + 1;
        }
        assert(tv.take(i as int) =~= tv);
        self.content = rebuilt;
        true
    }
}

} // verus!
