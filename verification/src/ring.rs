//! A bounded ring of whole lines of text, kept in a `string_ring::StringRing`.

use crate::text::{join, lines_of, lines_upto};
use string_ring::{Granularity, StringRing};
use vstd::prelude::*;
use vstd::utf8::encode_utf8;

verus! {

/// `string_ring::StringRing`, taken as it is: of its inside nothing is known here but
/// what the names below say.
#[verifier::external_type_specification]
#[verifier::external_body]
pub struct ExStringRing(StringRing);

/// The characters that a ring holds, oldest first.
pub uninterp spec fn ring_text(ring: StringRing) -> Seq<char>;

/// The limit that a ring was made with: the most bytes that it holds.
pub uninterp spec fn ring_limit(ring: StringRing) -> nat;

/// Whether a ring was made to drop whole lines and is not, at the moment, dropping what
/// is pushed up to the next line end.
pub uninterp spec fn ring_settled(ring: StringRing) -> bool;

/// How many bytes a text takes in a ring.
pub open spec fn size(text: Seq<char>) -> nat {
    encode_utf8(text).len()
}

/// Whether a text is made of whole lines: it is empty or ends with a line end.
pub open spec fn whole_lines(text: Seq<char>) -> bool {
    text.len() == 0 || text.last() == '\n'
}

/// Whether a line starts at place `k` of `text`: at its start, or behind a line end.
pub open spec fn line_start(text: Seq<char>, k: int) -> bool {
    k == 0 || (0 < k <= text.len() && text[k - 1] == '\n')
}

/// Whether what a ring of limit `limit` keeps of `text` starts at place `k`: a line
/// starts there, what follows fits, and from no earlier start of a line it would.
pub open spec fn kept_from(text: Seq<char>, limit: nat, k: int) -> bool {
    &&& 0 <= k <= text.len()
    &&& line_start(text, k)
    &&& size(text.skip(k)) <= limit
    &&& forall|j: int| 0 <= j < k && line_start(text, j) ==> size(#[trigger] text.skip(j)) > limit
}

/// Whether `kept` is what a ring of limit `limit` keeps of `text`: its newest whole
/// lines, as many as fit.
pub open spec fn keeps(text: Seq<char>, limit: nat, kept: Seq<char>) -> bool {
    exists|k: int| kept_from(text, limit, k) && kept == #[trigger] text.skip(k)
}

/// Makes an empty ring with `StringRing::new`, in line granularity, for at most `limit`
/// bytes. A new ring is not dropping input.
#[verifier::external_body]
fn ring_new(limit: usize) -> (ring: StringRing)
    ensures
        ring_text(ring) == Seq::<char>::empty(),
        ring_limit(ring) == limit,
        ring_settled(ring),
{
    StringRing::new(limit, Granularity::Line)
}

/// Appends whole lines to a ring of whole lines with `StringRing::push`. Where the
/// limit would be passed, the ring drops its oldest lines, as few as possible, and all
/// of them where even the newest line alone is too long. Since the pushed text ends a
/// line, the ring does not go on dropping afterwards.
#[verifier::external_body]
fn ring_push(ring: &mut StringRing, lines: &str)
    requires
        ring_settled(*old(ring)),
        whole_lines(ring_text(*old(ring))),
        lines@.len() > 0,
        lines@.last() == '\n',
    ensures
        ring_settled(*final(ring)),
        ring_limit(*final(ring)) == ring_limit(*old(ring)),
        keeps(ring_text(*old(ring)) + lines@, ring_limit(*old(ring)), ring_text(*final(ring))),
{
    ring.push(lines)
}

/// Empties a ring with `StringRing::clear`, which also ends any dropping of input.
#[verifier::external_body]
fn ring_clear(ring: &mut StringRing)
    requires
        ring_settled(*old(ring)),
    ensures
        ring_settled(*final(ring)),
        ring_limit(*final(ring)) == ring_limit(*old(ring)),
        ring_text(*final(ring)) == Seq::<char>::empty(),
{
    ring.clear()
}

/// Copies out what a ring holds, read in one piece with `StringRing::make_contiguous`,
/// which moves the bytes inside the ring and leaves the text as it is.
#[verifier::external_body]
fn ring_contents(ring: &mut StringRing) -> (text: String)
    requires
        ring_settled(*old(ring)),
        whole_lines(ring_text(*old(ring))),
    ensures
        text@ == ring_text(*old(ring)),
        ring_text(*final(ring)) == ring_text(*old(ring)),
        ring_limit(*final(ring)) == ring_limit(*old(ring)),
        ring_settled(*final(ring)),
{
    String::from(&*ring.make_contiguous())
}

/// A ring of whole lines with a limit in bytes. When a push would pass the limit, the
/// oldest lines leave, so that the ring never holds more than its limit nor part of a
/// line.
pub struct LineRing {
    ring: StringRing,
}

impl View for LineRing {
    type V = Seq<char>;

    /// The text in the ring.
    closed spec fn view(&self) -> Seq<char> {
        ring_text(self.ring)
    }
}

impl LineRing {
    /// The most bytes that the ring holds.
    pub closed spec fn limit(&self) -> nat {
        ring_limit(self.ring)
    }

    /// The invariant of the ring: it holds whole lines, no more than its limit, and is
    /// ready for the next line. Every ring made by `new` and changed by the methods
    /// below is sound.
    pub closed spec fn sound(&self) -> bool {
        ring_settled(self.ring) && whole_lines(ring_text(self.ring)) && size(ring_text(self.ring))
            <= ring_limit(self.ring)
    }

    /// Ring granularity as an invariant: a sound ring holds whole lines and never more
    /// bytes than its limit.
    pub proof fn law_ring_within_limit(&self)
        requires
            self.sound(),
        ensures
            whole_lines(self@),
            size(self@) <= self.limit(),
    {
    }

    /// An empty ring for at most `limit` bytes.
    pub fn new(limit: usize) -> (ring: LineRing)
        ensures
            ring@ == Seq::<char>::empty(),
            ring.limit() == limit,
            ring.sound(),
    {
        let ring = ring_new(limit);
        assert(encode_utf8(Seq::<char>::empty()).len() == 0) by {
            reveal_with_fuel(encode_utf8, 1);
        }
        LineRing { ring }
    }

    /// Pushes `text` and a line end. The ring then keeps the newest whole lines of what
    /// it held and what was pushed, as many as fit.
    pub fn push_line(&mut self, text: &str)
        requires
            old(self).sound(),
        ensures
            final(self).sound(),
            final(self).limit() == old(self).limit(),
            keeps(old(self)@ + text@ + seq!['\n'], old(self).limit(), final(self)@),
            whole_lines(final(self)@),
            size(final(self)@) <= final(self).limit(),
    {
        proof {
            reveal_strlit("\n");
        }
        let lines = join(text, "\n");
        assert(lines@ =~= text@ + seq!['\n']);
        assert(old(self)@ + lines@ =~= old(self)@ + text@ + seq!['\n']);
        ring_push(&mut self.ring, lines.as_str());
    }

    /// Takes all text out of the ring and leaves it empty.
    pub fn drain(&mut self) -> (text: String)
        requires
            old(self).sound(),
        ensures
            final(self).sound(),
            text@ == old(self)@,
            final(self)@ == Seq::<char>::empty(),
            final(self).limit() == old(self).limit(),
    {
        let text = ring_contents(&mut self.ring);
        ring_clear(&mut self.ring);
        assert(encode_utf8(Seq::<char>::empty()).len() == 0) by {
            reveal_with_fuel(encode_utf8, 1);
        }
        text
    }
}

/// What fits is kept whole: a ring drops nothing of a text that is within its limit.
pub proof fn law_fitting_text_is_kept(text: Seq<char>, limit: nat, kept: Seq<char>)
    requires
        keeps(text, limit, kept),
        size(text) <= limit,
    ensures
        kept == text,
{
    let k = choose|k: int| kept_from(text, limit, k) && kept == #[trigger] text.skip(k);
    if k > 0 {
        assert(line_start(text, 0));
        assert(text.skip(0) =~= text);
    }
    assert(text.skip(0) =~= text);
}

/// Ring granularity: of whole lines a ring keeps whole lines, never more than its
/// limit. What it drops are the oldest lines, whole ones, and no more of them than it
/// must: with any dropped line back in, the text would pass the limit.
pub proof fn law_ring_drops_oldest_lines(text: Seq<char>, limit: nat, kept: Seq<char>)
    requires
        keeps(text, limit, kept),
        whole_lines(text),
    ensures
        size(kept) <= limit,
        whole_lines(kept),
        exists|dropped: Seq<char>|
            #![trigger dropped + kept]
            text == dropped + kept && whole_lines(dropped) && forall|j: int|
                0 <= j < dropped.len() && line_start(text, j) ==> size(#[trigger] text.skip(j))
                    > limit,
{
    let k = choose|k: int| kept_from(text, limit, k) && kept == #[trigger] text.skip(k);
    let dropped = text.take(k);
    assert(text =~= dropped + kept);
    assert(whole_lines(dropped)) by {
        if k > 0 {
            assert(dropped.last() == text[k - 1]);
        }
    }
    if kept.len() > 0 {
        assert(kept.last() == text.last());
    }
}

proof fn lemma_lines_prefix(a: Seq<char>, b: Seq<char>, m: int)
    requires
        0 <= m <= a.len(),
    ensures
        lines_upto(a + b, m) == lines_upto(a, m),
    decreases m,
{
    if m > 0 {
        lemma_lines_prefix(a, b, m - 1);
        assert((a + b)[m - 1] == a[m - 1]);
    }
}

proof fn lemma_lines_after(a: Seq<char>, b: Seq<char>, n: int)
    requires
        whole_lines(a),
        0 <= n <= b.len(),
    ensures
        lines_upto(a + b, a.len() + n) == (
            lines_upto(a, a.len() as int).0 + lines_upto(b, n).0,
            lines_upto(b, n).1,
        ),
    decreases n,
{
    let whole = lines_upto(a, a.len() as int);
    if n == 0 {
        lemma_lines_prefix(a, b, a.len() as int);
        assert(whole.1 =~= Seq::<char>::empty());
        assert(whole.0 + lines_upto(b, 0).0 =~= whole.0);
    } else {
        lemma_lines_after(a, b, n - 1);
        assert((a + b)[a.len() + n - 1] == b[n - 1]);
        let (done, current) = lines_upto(b, n - 1);
        if b[n - 1] == '\n' {
            assert((whole.0 + done).push(current) =~= whole.0 + done.push(current));
        }
    }
}

/// The lines of whole lines followed by more text are the lines of both, in order.
proof fn lemma_lines_concat(a: Seq<char>, b: Seq<char>)
    requires
        whole_lines(a),
    ensures
        lines_of(a + b) == lines_of(a) + lines_of(b),
{
    lemma_lines_after(a, b, b.len() as int);
    lemma_lines_after(a, Seq::<char>::empty(), 0);
    assert(a + Seq::<char>::empty() =~= a);
    let whole = lines_upto(a, a.len() as int);
    let rest = lines_upto(b, b.len() as int);
    assert(whole.1 =~= Seq::<char>::empty()) by {
        lemma_lines_prefix(a, b, a.len() as int);
    }
    assert(lines_of(a) == whole.0);
    if rest.1.len() > 0 {
        assert((whole.0 + rest.0).push(rest.1) =~= whole.0 + rest.0.push(rest.1));
    }
}

/// Ring granularity line by line: the lines that a ring keeps of whole lines are the
/// last of its lines, in their order; the lines before them are dropped and no other.
pub proof fn law_ring_keeps_newest_lines(text: Seq<char>, limit: nat, kept: Seq<char>)
    requires
        keeps(text, limit, kept),
        whole_lines(text),
    ensures
        exists|dropped: Seq<Seq<char>>|
            #![trigger dropped + lines_of(kept)]
            lines_of(text) == dropped + lines_of(kept),
{
    let k = choose|k: int| kept_from(text, limit, k) && kept == #[trigger] text.skip(k);
    let dropped = text.take(k);
    assert(text =~= dropped + kept);
    assert(whole_lines(dropped)) by {
        if k > 0 {
            assert(dropped.last() == text[k - 1]);
        }
    }
    lemma_lines_concat(dropped, kept);
    assert(lines_of(text) == lines_of(dropped) + lines_of(kept));
}

} // verus!
