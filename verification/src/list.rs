//! A list of integers that renders with the index in front of each item:
//! `[0: 7, 1: -3, 2: 12]`.

use vstd::prelude::*;
use vstd::string::StringExecFns;
use crate::digits::{append_decimal, append_signed, decimal, signed_decimal};
use crate::render::{concat, lemma_concat_take, rendered, Renderable};
use crate::sink::{Sink, WriteError};

verus! {

/// An ordered sequence of integers, fixed once made.
#[derive(Debug)]
pub struct IndexedList {
    items: Vec<i32>,
}

/// The item `v` at place `i` with its label: `i: v`.
pub open spec fn labelled(i: nat, v: int) -> Seq<char> {
    decimal(i) + seq![':', ' '] + signed_decimal(v)
}

/// The labelled item as it is written: a comma and a space lead every item
/// but the first.
pub open spec fn entry(i: nat, v: int) -> Seq<char> {
    if i == 0 {
        labelled(i, v)
    } else {
        seq![',', ' '] + labelled(i, v)
    }
}

/// The labelled items of `items`, in order.
pub open spec fn labels(items: Seq<i32>) -> Seq<Seq<char>> {
    Seq::new(items.len(), |i: int| labelled(i as nat, items[i] as int))
}

/// The `parts` in order, with `sep` between each two neighbours.
pub open spec fn join(sep: Seq<char>, parts: Seq<Seq<char>>) -> Seq<char>
    decreases parts.len(),
{
    if parts.len() == 0 {
        Seq::empty()
    } else if parts.len() == 1 {
        parts[0]
    } else {
        join(sep, parts.drop_last()) + sep + parts.last()
    }
}

/// What a list of `items` writes: the opening bracket, one entry for each
/// item, the closing bracket.
pub open spec fn list_pieces(items: Seq<i32>) -> Seq<Seq<char>> {
    Seq::new(
        (items.len() + 2) as nat,
        |k: int|
            if k == 0 {
                seq!['[']
            } else if k <= items.len() {
                entry((k - 1) as nat, items[k - 1] as int)
            } else {
                seq![']']
            },
    )
}

impl View for IndexedList {
    type V = Seq<i32>;

    closed spec fn view(&self) -> Seq<i32> {
        self.items@
    }
}

impl IndexedList {
    /// The list of `items`.
    pub fn new(items: Vec<i32>) -> (list: Self)
        ensures
            list@ == items@,
    {
        IndexedList { items }
    }

    /// The number of items.
    pub fn len(&self) -> (n: usize)
        ensures
            n == self@.len(),
    {
        self.items.len()
    }

    /// The items, in order.
    pub fn items(&self) -> (items: &Vec<i32>)
        ensures
            items@ == self@,
    {
        &self.items
    }

    /// The item `v` at place `i` as it is written.
    pub fn entry_text(i: usize, v: i32) -> (s: String)
        ensures
            s@ == entry(i as nat, v as int),
    {
        proof {
            reveal_strlit(", ");
            reveal_strlit(": ");
        }
        let mut s = String::new();
        if i != 0 {
            s.append(", ");
        }
        append_decimal(&mut s, i as u64);
        s.append(": ");
        append_signed(&mut s, v as i64);
        assert(", "@ =~= seq![',', ' ']);
        assert(": "@ =~= seq![':', ' ']);
        assert(s@ =~= entry(i as nat, v as int));
        s
    }
}

impl Renderable for IndexedList {
    open spec fn pieces(&self) -> Seq<Seq<char>> {
        list_pieces(self@)
    }

    fn piece(&self, k: usize) -> (p: Option<String>) {
        proof {
            reveal_strlit("[");
            reveal_strlit("]");
        }
        if k == 0 {
            let p = String::from_str("[");
            assert(p@ =~= self.pieces()[0]);
            Some(p)
        } else if k - 1 < self.items.len() {
            Some(Self::entry_text(k - 1, self.items[k - 1]))
        } else if k - 1 == self.items.len() {
            let p = String::from_str("]");
            assert(p@ =~= self.pieces()[k as int]);
            Some(p)
        } else {
            None
        }
    }

    fn render<S: Sink>(&self, sink: &mut S) -> (r: Result<(), WriteError>) {
        let ghost pieces = list_pieces(self@);
        proof {
            reveal_strlit("[");
            reveal_strlit("]");
            assert(pieces.take(0) =~= Seq::<Seq<char>>::empty());
            lemma_concat_take(pieces, 0);
            assert("["@ =~= pieces[0]);
        }
        match sink.write_str("[") {
            Err(e) => {
                assert(sink.accepted() =~= old(sink).accepted() + concat(pieces.take(0)));
                return Err(e);
            },
            Ok(_) => {},
        }
        assert(sink.accepted() =~= old(sink).accepted() + concat(pieces.take(1)));
        let n: usize = self.items.len();
        let mut i: usize = 0;
        while i < n
            invariant
                n == self.items.len(),
                pieces == list_pieces(self@),
                i <= n,
                sink.writes() == old(sink).writes() + 1 + i,
                sink.refusals() == old(sink).refusals(),
                sink.accepted() == old(sink).accepted() + concat(pieces.take(i + 1)),
            decreases n - i,
        {
            let piece = Self::entry_text(i, self.items[i]);
            proof {
                assert(piece@ == pieces[i + 1]);
                lemma_concat_take(pieces, i + 1);
            }
            match sink.write_str(piece.as_str()) {
                Err(e) => {
                    return Err(e);
                },
                Ok(_) => {},
            }
            assert(sink.accepted() =~= old(sink).accepted() + concat(pieces.take(i + 2)));
            i += 1;
        }
        proof {
            assert("]"@ =~= pieces[n + 1]);
            lemma_concat_take(pieces, n + 1);
            assert(pieces.take(n + 2) =~= pieces);
        }
        let r = sink.write_str("]");
        proof {
            if r is Ok {
                assert(sink.accepted() =~= old(sink).accepted() + concat(pieces));
            }
        }
        r
    }
}

/// The first `k` entries behind the opening bracket are the first `k`
/// labelled items, joined by a comma and a space.
proof fn lemma_pieces_prefix(items: Seq<i32>, k: int)
    requires
        0 <= k <= items.len(),
    ensures
        concat(list_pieces(items).take(k + 1)) == seq!['['] + join(
            seq![',', ' '],
            labels(items.take(k)),
        ),
    decreases k,
{
    let pieces = list_pieces(items);
    let sep = seq![',', ' '];
    let now = labels(items.take(k));
    if k == 0 {
        lemma_concat_take(pieces, 0);
        assert(pieces.take(0) =~= Seq::<Seq<char>>::empty());
        assert(now =~= Seq::<Seq<char>>::empty());
        assert(concat(pieces.take(1)) =~= seq!['['] + join(sep, now));
    } else {
        let before = labels(items.take(k - 1));
        lemma_pieces_prefix(items, k - 1);
        lemma_concat_take(pieces, k);
        assert(now.drop_last() =~= before);
        assert(now.last() == labelled((k - 1) as nat, items[k - 1] as int));
        assert(pieces[k] == entry((k - 1) as nat, items[k - 1] as int));
        if k == 1 {
            assert(join(sep, before) =~= Seq::<char>::empty());
            assert(join(sep, now) == now[0]);
        } else {
            assert(join(sep, now) == join(sep, before) + sep + now.last());
        }
        assert(concat(pieces.take(k + 1)) =~= seq!['['] + join(sep, now));
    }
}

/// The text of a list is an opening bracket, its labelled items joined by a
/// comma and a space, and a closing bracket.
pub proof fn lemma_list_text(list: IndexedList)
    ensures
        rendered(&list) == seq!['['] + join(seq![',', ' '], labels(list@)) + seq![']'],
{
    let items = list@;
    let pieces = list_pieces(items);
    let n = items.len() as int;
    lemma_pieces_prefix(items, n);
    lemma_concat_take(pieces, n + 1);
    assert(pieces.take(n + 2) =~= pieces);
    assert(items.take(n) =~= items);
}

/// The text of a list without items is `[]`.
pub proof fn lemma_empty_list_text(list: IndexedList)
    requires
        list@.len() == 0,
    ensures
        rendered(&list) == seq!['[', ']'],
{
    lemma_list_text(list);
    assert(labels(list@) =~= Seq::<Seq<char>>::empty());
    assert(rendered(&list) =~= seq!['[', ']']);
}

} // verus!
