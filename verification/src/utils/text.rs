//! Texts made of pieces between separators.
use vstd::prelude::*;

verus! {

/// A comma in ASCII.
pub const COMMA: u8 = 0x2C;

/// A colon in ASCII.
pub const COLON: u8 = 0x3A;

/// The digit one in ASCII.
pub const ONE: u8 = 0x31;

/// The pieces of `b` between the separators `sep`, read from left to right: the pieces that a
/// separator has ended, and the piece under way.
pub open spec fn split_acc<T>(b: Seq<T>, sep: T) -> (Seq<Seq<T>>, Seq<T>)
    decreases b.len(),
{
    if b.len() == 0 {
        (seq![], seq![])
    } else {
        let (done, cur) = split_acc(b.drop_last(), sep);
        if b.last() == sep {
            (done.push(cur), seq![])
        } else {
            (done, cur.push(b.last()))
        }
    }
}

/// The pieces of `b` between the separators `sep`: one more than there are separators.
pub open spec fn split<T>(b: Seq<T>, sep: T) -> Seq<Seq<T>> {
    let (done, cur) = split_acc(b, sep);
    done.push(cur)
}

/// Reading further only ever ends more pieces: the pieces ended within the first `i` bytes
/// are the first pieces ended within the first `j`.
pub proof fn lemma_split_acc_prefix<T>(b: Seq<T>, sep: T, i: int, j: int)
    requires
        0 <= i <= j <= b.len(),
    ensures
        split_acc(b.take(i), sep).0.len() <= split_acc(b.take(j), sep).0.len(),
        split_acc(b.take(j), sep).0.take(split_acc(b.take(i), sep).0.len() as int) == split_acc(
            b.take(i),
            sep,
        ).0,
    decreases j - i,
{
    if i < j {
        lemma_split_acc_prefix(b, sep, i, j - 1);
        assert(b.take(j).drop_last() =~= b.take(j - 1));
        let d = split_acc(b.take(j - 1), sep).0;
        let e = split_acc(b.take(i), sep).0;
        assert(split_acc(b.take(j), sep).0.take(e.len() as int) =~= d.take(e.len() as int));
    }
}

} // verus!
