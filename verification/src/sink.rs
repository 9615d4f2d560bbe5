//! Sinks: append-only destinations for text, and the one way a write to
//! them can go wrong.

use vstd::prelude::*;
use vstd::string::StringExecFns;

verus! {

/// The sink could not take the text it was handed.
#[derive(Clone, Copy, Debug, PartialEq, Eq, Structural)]
pub struct WriteError;

/// An append-only destination for text.
///
/// A sink is described by the text it has accepted, by the number of writes
/// it has been asked for, and by how many of those it refused. A write
/// either appends the whole piece or is refused and appends nothing; either
/// way it counts as one write.
pub trait Sink {
    /// Everything the sink has accepted so far, in order.
    spec fn accepted(&self) -> Seq<char>;

    /// How many writes were asked of the sink, refused ones included.
    spec fn writes(&self) -> nat;

    /// How many writes the sink has refused.
    spec fn refusals(&self) -> nat;

    /// Asks the sink to append `piece`.
    fn write_str(&mut self, piece: &str) -> (r: Result<(), WriteError>)
        ensures
            final(self).writes() == old(self).writes() + 1,
            r is Ok ==> final(self).accepted() == old(self).accepted() + piece@
                && final(self).refusals() == old(self).refusals(),
            r is Err ==> final(self).accepted() == old(self).accepted()
                && final(self).refusals() == old(self).refusals() + 1,
    ;
}

/// A sink that keeps everything in memory and never refuses a write.
pub struct TextSink {
    buffer: String,
    asked: Ghost<nat>,
}

impl TextSink {
    /// The text held so far.
    pub closed spec fn text(&self) -> Seq<char> {
        self.buffer@
    }

    /// The number of writes made so far.
    pub closed spec fn asked(&self) -> nat {
        self.asked@
    }

    /// An empty sink.
    pub fn new() -> (s: Self)
        ensures
            s.text() == Seq::<char>::empty(),
            s.asked() == 0,
    {
        TextSink { buffer: String::new(), asked: Ghost(0) }
    }

    /// The text held so far.
    pub fn as_str(&self) -> (t: &str)
        ensures
            t@ == self.text(),
    {
        self.buffer.as_str()
    }

    /// Gives up the sink for the text it holds.
    pub fn into_string(self) -> (t: String)
        ensures
            t@ == self.text(),
    {
        self.buffer
    }
}

impl Sink for TextSink {
    open spec fn accepted(&self) -> Seq<char> {
        self.text()
    }

    open spec fn writes(&self) -> nat {
        self.asked()
    }

    open spec fn refusals(&self) -> nat {
        0
    }

    /// Appends `piece`; this sink always succeeds.
    fn write_str(&mut self, piece: &str) -> (r: Result<(), WriteError>)
        ensures
            r is Ok,
    {
        self.buffer.append(piece);
        self.asked = Ghost((self.asked@ + 1) as nat);
        Ok(())
    }
}

/// A sink that takes a fixed number of writes and refuses every one after
/// them, as a stream does once it is closed.
pub struct LimitedSink {
    buffer: String,
    room: usize,
    refused: usize,
    taken: Ghost<nat>,
    uncounted: Ghost<nat>,
}

impl LimitedSink {
    /// The text held so far.
    pub closed spec fn text(&self) -> Seq<char> {
        self.buffer@
    }

    /// The number of writes the sink has taken.
    pub closed spec fn taken(&self) -> nat {
        self.taken@
    }

    /// The number of writes the sink has refused.
    pub closed spec fn turned_away(&self) -> nat {
        self.refused as nat + self.uncounted@
    }

    /// The number of writes the sink will still take.
    pub closed spec fn room(&self) -> nat {
        self.room as nat
    }

    /// The number of refused writes as the sink reports it: the count stops
    /// at `usize::MAX`.
    pub closed spec fn refused_count(&self) -> nat {
        self.refused as nat
    }

    /// An empty sink that takes `limit` writes.
    pub fn new(limit: usize) -> (s: Self)
        ensures
            s.text() == Seq::<char>::empty(),
            s.taken() == 0,
            s.turned_away() == 0,
            s.room() == limit,
            s.refused_count() == 0,
    {
        LimitedSink {
            buffer: String::new(),
            room: limit,
            refused: 0,
            taken: Ghost(0),
            uncounted: Ghost(0),
        }
    }

    /// The text held so far.
    pub fn as_str(&self) -> (t: &str)
        ensures
            t@ == self.text(),
    {
        self.buffer.as_str()
    }

    /// The number of writes the sink will still take.
    pub fn remaining(&self) -> (n: usize)
        ensures
            n == self.room(),
    {
        self.room
    }

    /// The number of writes refused so far; the count stops at `usize::MAX`.
    pub fn refused(&self) -> (n: usize)
        ensures
            n == self.refused_count(),
    {
        self.refused
    }
}

impl Sink for LimitedSink {
    open spec fn accepted(&self) -> Seq<char> {
        self.text()
    }

    open spec fn writes(&self) -> nat {
        self.taken() + self.turned_away()
    }

    open spec fn refusals(&self) -> nat {
        self.turned_away()
    }

    /// Takes `piece` while there is room, and refuses it otherwise.
    fn write_str(&mut self, piece: &str) -> (r: Result<(), WriteError>)
        ensures
            r is Ok <==> old(self).room() > 0,
            r is Ok ==> final(self).room() == old(self).room() - 1
                && final(self).refused_count() == old(self).refused_count(),
            r is Err ==> final(self).room() == 0
                && final(self).refused_count() == if old(self).refused_count() < usize::MAX {
                old(self).refused_count() + 1
            } else {
                old(self).refused_count()
            },
    {
        if self.room > 0 {
            self.buffer.append(piece);
            self.room = self.room - 1;
            self.taken = Ghost((self.taken@ + 1) as nat);
            Ok(())
        } else {
            if self.refused < usize::MAX {
                self.refused = self.refused + 1;
            } else {
                self.uncounted = Ghost((self.uncounted@ + 1) as nat);
            }
            Err(WriteError)
        }
    }
}

} // verus!
