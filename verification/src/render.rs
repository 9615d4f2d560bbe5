//! The capability of rendering oneself as text, piece by piece, into a sink.

use vstd::prelude::*;
use crate::sink::{Sink, TextSink, WriteError};

verus! {

/// The pieces laid end to end.
pub open spec fn concat(pieces: Seq<Seq<char>>) -> Seq<char>
    decreases pieces.len(),
{
    if pieces.len() == 0 {
        Seq::empty()
    } else {
        concat(pieces.drop_last()) + pieces.last()
    }
}

/// What a render call that was meant to write `pieces` has done to its sink
/// when it comes back with `r`.
///
/// With `Ok`, every piece was written, one write each, none was refused,
/// and the sink holds them all. With `Err`, the sink refused one write: the
/// pieces before it are in the sink, the refused one is not, and no write
/// followed it.
pub open spec fn render_outcome<S: Sink>(
    pieces: Seq<Seq<char>>,
    before: S,
    after: S,
    r: Result<(), WriteError>,
) -> bool {
    let made = after.writes() - before.writes();
    match r {
        Ok(_) => {
            &&& made == pieces.len()
            &&& after.refusals() == before.refusals()
            &&& after.accepted() == before.accepted() + concat(pieces)
        },
        Err(_) => {
            &&& 1 <= made <= pieces.len()
            &&& after.refusals() == before.refusals() + 1
            &&& after.accepted() == before.accepted() + concat(pieces.take(made - 1))
        },
    }
}

/// A value that can render itself as text.
pub trait Renderable {
    /// The pieces of text the value writes, in the order it writes them.
    spec fn pieces(&self) -> Seq<Seq<char>>;

    /// The piece to write at step `k`, counted from zero; `None` once
    /// every piece is written. A caller that owns the destination writes
    /// the pieces in turn and stops where a write fails.
    fn piece(&self, k: usize) -> (p: Option<String>)
        ensures
            p is Some <==> k < self.pieces().len(),
            p is Some ==> p.unwrap()@ == self.pieces()[k as int],
    ;

    /// Writes the pieces to `sink`, one write each, and stops at the first
    /// write the sink refuses.
    fn render<S: Sink>(&self, sink: &mut S) -> (r: Result<(), WriteError>)
        ensures
            render_outcome(self.pieces(), *old(sink), *final(sink), r),
    ;
}

/// The whole text of a value: its pieces laid end to end.
pub open spec fn rendered<T: Renderable>(value: &T) -> Seq<char> {
    concat(value.pieces())
}

/// One more piece at the end adds its text at the end.
pub proof fn lemma_concat_take(pieces: Seq<Seq<char>>, k: int)
    requires
        0 <= k < pieces.len(),
    ensures
        concat(pieces.take(k + 1)) == concat(pieces.take(k)) + pieces[k],
{
    assert(pieces.take(k + 1).drop_last() =~= pieces.take(k));
}

/// A single piece is its own text.
pub proof fn lemma_concat_one(piece: Seq<char>)
    ensures
        concat(seq![piece]) == piece,
{
    let s = seq![piece];
    assert(s.drop_last() =~= Seq::<Seq<char>>::empty());
    assert(concat(s.drop_last()) =~= Seq::<char>::empty());
    assert(concat(s) =~= piece);
}

/// A render call fails exactly when its sink refused a write, and then it
/// has made no write after the refused one: with `made` writes in all, the
/// sink has gained the first `made - 1` pieces and nothing else.
pub proof fn lemma_refusal_ends_render<S: Sink>(
    pieces: Seq<Seq<char>>,
    before: S,
    after: S,
    r: Result<(), WriteError>,
)
    requires
        render_outcome(pieces, before, after, r),
    ensures
        r is Err <==> after.refusals() > before.refusals(),
        r is Err ==> {
            let made = after.writes() - before.writes();
            &&& 1 <= made <= pieces.len()
            &&& after.accepted() == before.accepted() + concat(pieces.take(made - 1))
        },
        r is Ok ==> after.writes() - before.writes() == pieces.len(),
{
}

/// Renders `value` into a fresh string.
pub fn render_to_string<T: Renderable>(value: &T) -> (s: String)
    ensures
        s@ == rendered(value),
{
    let mut sink = TextSink::new();
    let r = value.render(&mut sink);
    assert(r is Ok);
    assert(sink.text() =~= rendered(value));
    sink.into_string()
}

} // verus!
