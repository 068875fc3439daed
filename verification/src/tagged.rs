//! Telling a tag from any other text by the pieces in which it is written:
//! a tag comes as an exclamation mark and then its name.
use vstd::prelude::*;
use vstd::string::StringExecFns;
use crate::ser::{MaybeTag, MaybeTagView};
use crate::text::is_word;
use crate::text::chars_of;

verus! {

/// What the pieces read so far look like.
pub enum Scan {
    /// Nothing was written yet.
    Empty,
    /// One exclamation mark was written.
    Bang,
    /// An exclamation mark and one more piece, this name, were written.
    Tag(Seq<char>),
    /// Something else was written: this text.
    NotTag(Seq<char>),
}

/// What the pieces look like after one more of them. An empty piece changes
/// nothing. A piece after a whole tag makes the text no tag: the text is
/// then the name and the piece, without the mark.
pub open spec fn scan_piece(state: Scan, piece: Seq<char>) -> Scan {
    if piece.len() == 0 {
        state
    } else {
        match state {
            Scan::Empty => if piece == seq!['!'] {
                Scan::Bang
            } else {
                Scan::NotTag(piece)
            },
            Scan::Bang => Scan::Tag(piece),
            Scan::Tag(name) => Scan::NotTag(name + piece),
            Scan::NotTag(text) => Scan::NotTag(text + piece),
        }
    }
}

/// What `pieces[from..]` look like, read one after the other from `state`.
pub open spec fn scan(state: Scan, pieces: Seq<Seq<char>>, from: int) -> Scan
    decreases pieces.len() - from,
{
    if 0 <= from < pieces.len() {
        scan(scan_piece(state, pieces[from]), pieces, from + 1)
    } else {
        state
    }
}

/// What a text is, once all of it was read: a tag where it was written as a
/// mark and one name; otherwise the text, a lone mark being `!`.
pub open spec fn verdict(state: Scan) -> MaybeTagView {
    match state {
        Scan::Empty => MaybeTagView::NotTag(Seq::empty()),
        Scan::Bang => MaybeTagView::NotTag(seq!['!']),
        Scan::Tag(name) => MaybeTagView::Tag(name),
        Scan::NotTag(text) => MaybeTagView::NotTag(text),
    }
}

/// The pieces, each by what it stands for.
pub open spec fn pieces_view(pieces: Seq<String>) -> Seq<Seq<char>> {
    Seq::new(pieces.len(), |i: int| pieces[i]@)
}

enum Progress {
    Empty,
    Bang,
    Tag(String),
    NotTag(String),
}

impl Progress {
    spec fn view(&self) -> Scan {
        match self {
            Progress::Empty => Scan::Empty,
            Progress::Bang => Scan::Bang,
            Progress::Tag(name) => Scan::Tag(name@),
            Progress::NotTag(text) => Scan::NotTag(text@),
        }
    }
}

/// Tests a text, given as the pieces in which it was written, for the form
/// of a tag.
pub fn check_for_tag(pieces: &Vec<String>) -> (r: MaybeTag)
    ensures
        r@ == verdict(scan(Scan::Empty, pieces_view(pieces@), 0)),
{
    let ghost all = pieces_view(pieces@);
    let mut state = Progress::Empty;
    let mut i: usize = 0;
    while i < pieces.len()
        invariant
            i <= pieces.len(),
            all == pieces_view(pieces@),
            scan(Scan::Empty, all, 0) == scan(state.view(), all, i as int),
        decreases pieces.len() - i,
    {
        let piece = &pieces[i];
        assert(all[i as int] == piece@);
        let v = chars_of(piece.as_str());
        if v.len() > 0 {
            state = match state {
                Progress::Empty => {
                    proof {
                        reveal_strlit("!");
                        assert("!"@ =~= seq!['!']);
                    }
                    if is_word(&v, "!") {
                        Progress::Bang
                    } else {
                        Progress::NotTag(piece.clone())
                    }
                },
                Progress::Bang => Progress::Tag(piece.clone()),
                Progress::Tag(name) => {
                    let mut text = name;
                    text.append(piece.as_str());
                    Progress::NotTag(text)
                },
                Progress::NotTag(text) => {
                    let mut text = text;
                    text.append(piece.as_str());
                    Progress::NotTag(text)
                },
            };
        }
        i += 1;
    }
    match state {
        Progress::Empty => MaybeTag::NotTag(String::new()),
        Progress::Bang => {
            proof {
                reveal_strlit("!");
                assert("!"@ =~= seq!['!']);
            }
            MaybeTag::NotTag("!".to_owned())
        },
        Progress::Tag(name) => MaybeTag::Tag(name),
        Progress::NotTag(text) => MaybeTag::NotTag(text),
    }
}

} // verus!
