//! Marking, word by word, what changed between two versions of a menu.
use vstd::prelude::*;

use difference::{Changeset, Difference};

use crate::text::{trim_start, trimmed_start};

verus! {

/// One piece of a word-by-word comparison of two texts.
pub enum DiffPiece {
    /// Words that both texts have here.
    Same(String),
    /// Words that only the new text has here.
    Add(String),
    /// Words that only the old text has here.
    Rem(String),
}

/// The texts of a [`DiffPiece`].
pub enum DiffPieceView {
    Same(Seq<char>),
    Add(Seq<char>),
    Rem(Seq<char>),
}

impl View for DiffPiece {
    type V = DiffPieceView;

    open spec fn view(&self) -> DiffPieceView {
        match self {
            DiffPiece::Same(w) => DiffPieceView::Same(w@),
            DiffPiece::Add(w) => DiffPieceView::Add(w@),
            DiffPiece::Rem(w) => DiffPieceView::Rem(w@),
        }
    }
}

/// The views of some pieces.
pub open spec fn piece_views(pieces: Seq<DiffPiece>) -> Seq<DiffPieceView> {
    pieces.map_values(|p: DiffPiece| p@)
}

/// The pieces that difference's `Changeset::new(orig, edit, split)` finds, in order.
pub uninterp spec fn changeset_pieces(orig: Seq<char>, edit: Seq<char>, split: Seq<char>) -> Seq<
    DiffPieceView,
>;

/// Calls difference's `Changeset::new` and hands out its `diffs`, each as a [`DiffPiece`] of
/// the same variant and text.
///
/// Trusted: the pieces are what `changeset_pieces` names for the three texts. How difference
/// finds them (a longest common subsequence of the split words) is not stated, but for one
/// case: with a non-empty separator, two equal texts give one `Same` piece holding the text
/// (no piece for the empty text), as `lcs` then keeps every word and `merge` joins them.
#[verifier::external_body]
fn changeset(orig: &str, edit: &str, split: &str) -> (r: Vec<DiffPiece>)
    ensures
        piece_views(r@) == changeset_pieces(orig@, edit@, split@),
        orig@ == edit@ && split@.len() > 0 ==> piece_views(r@) == (if orig@.len() == 0 {
            Seq::<DiffPieceView>::empty()
        } else {
            seq![DiffPieceView::Same(orig@)]
        }),
{
    let mut pieces = Vec::new();
    for change in Changeset::new(orig, edit, split).diffs {
        pieces.push(
            match change {
                Difference::Same(w) => DiffPiece::Same(w),
                Difference::Add(w) => DiffPiece::Add(w),
                Difference::Rem(w) => DiffPiece::Rem(w),
            },
        );
    }
    pieces
}

/// What a piece adds to the marked text: kept words after a space, added words after a space
/// and between stars, removed words nothing. Leading whitespace of the words is dropped.
pub open spec fn piece_text(piece: DiffPieceView) -> Seq<char> {
    match piece {
        DiffPieceView::Same(w) => " "@ + trimmed_start(w),
        DiffPieceView::Add(w) => " *"@ + trimmed_start(w) + "*"@,
        DiffPieceView::Rem(_) => Seq::empty(),
    }
}

/// The marked text of some pieces, one after the other.
pub open spec fn marked_text(pieces: Seq<DiffPieceView>) -> Seq<char>
    decreases pieces.len(),
{
    if pieces.len() == 0 {
        Seq::empty()
    } else {
        marked_text(pieces.drop_last()) + piece_text(pieces.last())
    }
}

/// The new text, compared word by word (split at spaces) with the current one: the words
/// that stayed are kept, the new ones are put between stars, the removed ones are left out.
pub fn get_diff(current: String, new: String) -> (r: String)
    ensures
        r@ == marked_text(changeset_pieces(current@, new@, " "@)),
        current@ == new@ ==> r@ == (if current@.len() == 0 {
            Seq::<char>::empty()
        } else {
            " "@ + trimmed_start(current@)
        }),
{
    proof {
        reveal_strlit(" ");
    }
    let pieces = changeset(current.as_str(), new.as_str(), " ");
    let ghost all = piece_views(pieces@);
    let mut new_menu = String::new();
    let n = pieces.len();
    let mut i: usize = 0;
    while i < n
        invariant
            n == pieces@.len(),
            all == piece_views(pieces@),
            i <= n,
            new_menu@ == marked_text(all.take(i as int)),
        decreases n - i,
    {
        let ghost before = new_menu@;
        match &pieces[i] {
            DiffPiece::Same(word) => {
                new_menu.append(" ");
                new_menu.append(trim_start(word.as_str()));
            },
            DiffPiece::Add(word) => {
                new_menu.append(" *");
                new_menu.append(trim_start(word.as_str()));
                new_menu.append("*");
            },
            DiffPiece::Rem(_) => {},
        }
        proof {
            let t = all.take(i + 1);
            assert(t.drop_last() =~= all.take(i as int));
            assert(t.last() == pieces@[i as int]@);
            assert(new_menu@ =~= before + piece_text(t.last()));
        }
        i = i + 1;
    }
    assert(all.take(n as int) =~= all);
    proof {
        if current@ == new@ && current@.len() > 0 {
            let one = seq![DiffPieceView::Same(current@)];
            assert(one.drop_last() =~= Seq::<DiffPieceView>::empty());
            assert(marked_text(one) == marked_text(Seq::<DiffPieceView>::empty()) + piece_text(
                one.last(),
            ));
            assert(marked_text(one) =~= " "@ + trimmed_start(current@));
        }
    }
    new_menu
}

/// The marked text of pieces joined after others is the marked text of both, joined: every
/// piece adds its part wherever it stands.
pub proof fn law_marked_text_concat(a: Seq<DiffPieceView>, b: Seq<DiffPieceView>)
    ensures
        marked_text(a + b) == marked_text(a) + marked_text(b),
    decreases b.len(),
{
    if b.len() == 0 {
        assert(a + b =~= a);
        assert(marked_text(a) + marked_text(b) =~= marked_text(a));
    } else {
        law_marked_text_concat(a, b.drop_last());
        assert((a + b).drop_last() =~= a + b.drop_last());
        assert((a + b).last() == b.last());
        assert(marked_text(a + b) =~= marked_text(a) + marked_text(b));
    }
}

/// What each piece adds, after any pieces: kept words after a space, added words after a space
/// and between stars, removed words nothing.
pub proof fn law_each_piece_is_marked(pieces: Seq<DiffPieceView>, w: Seq<char>)
    ensures
        marked_text(pieces.push(DiffPieceView::Same(w))) == marked_text(pieces) + " "@ + trimmed_start(w),
        marked_text(pieces.push(DiffPieceView::Add(w))) == marked_text(pieces) + " *"@ + trimmed_start(w) + "*"@,
        marked_text(pieces.push(DiffPieceView::Rem(w))) == marked_text(pieces),
{
    assert(pieces.push(DiffPieceView::Same(w)).drop_last() =~= pieces);
    assert(pieces.push(DiffPieceView::Add(w)).drop_last() =~= pieces);
    assert(pieces.push(DiffPieceView::Rem(w)).drop_last() =~= pieces);
    assert(marked_text(pieces) + " "@ + trimmed_start(w) =~= marked_text(pieces) + (" "@ + trimmed_start(w)));
    assert(marked_text(pieces) + " *"@ + trimmed_start(w) + "*"@ =~= marked_text(pieces) + (" *"@ + trimmed_start(w) + "*"@));
    assert(marked_text(pieces) + Seq::<char>::empty() =~= marked_text(pieces));
}

} // verus!
