//! The list of locators that a worker in multi-peer mode connects to.
//!
//! The list is one text: locators separated by commas, empty pieces
//! ignored. Each piece is read and brought into canonical form by zenoh.

use std::str::FromStr;
use vstd::prelude::*;
use vstd::string::*;
use zenoh::config::Locator;

verus! {

/// The piece that is being read at the end of `s`: what follows the last
/// comma.
pub open spec fn last_piece(s: Seq<char>) -> Seq<char>
    decreases s.len(),
{
    if s.len() == 0 || s.last() == ',' {
        Seq::empty()
    } else {
        last_piece(s.drop_last()).push(s.last())
    }
}

/// `piece` as a list of pieces: none where it is empty.
pub open spec fn kept(piece: Seq<char>) -> Seq<Seq<char>> {
    if piece.len() == 0 {
        Seq::empty()
    } else {
        seq![piece]
    }
}

/// The pieces of `s` that a comma ends, the empty ones left out.
pub open spec fn closed_pieces(s: Seq<char>) -> Seq<Seq<char>>
    decreases s.len(),
{
    if s.len() == 0 {
        Seq::empty()
    } else if s.last() == ',' {
        closed_pieces(s.drop_last()) + kept(last_piece(s.drop_last()))
    } else {
        closed_pieces(s.drop_last())
    }
}

/// The pieces of `s` between its commas, in order, the empty ones left out.
pub open spec fn pieces(s: Seq<char>) -> Seq<Seq<char>> {
    closed_pieces(s) + kept(last_piece(s))
}

/// Whether `s` holds no comma.
pub open spec fn plain(s: Seq<char>) -> bool {
    forall|i: int| 0 <= i < s.len() ==> s[i] != ','
}

/// The texts of `v`.
pub open spec fn texts(v: Seq<String>) -> Seq<Seq<char>> {
    Seq::new(v.len(), |i: int| v[i]@)
}

/// The texts of `v`, `None` for each that is missing.
pub open spec fn optional_texts(v: Seq<Option<String>>) -> Seq<Option<Seq<char>>> {
    Seq::new(
        v.len(),
        |i: int|
            match v[i] {
                Some(s) => Some(s@),
                None => None,
            },
    )
}

/// A text without a comma is one piece, or none where it is empty.
pub proof fn lemma_pieces_of_plain(s: Seq<char>)
    requires
        plain(s),
    ensures
        last_piece(s) == s,
        closed_pieces(s) == Seq::<Seq<char>>::empty(),
        pieces(s) == kept(s),
    decreases s.len(),
{
    if s.len() > 0 {
        lemma_pieces_of_plain(s.drop_last());
        assert(s.drop_last().push(s.last()) =~= s);
    } else {
        assert(s =~= Seq::<char>::empty());
    }
    assert(Seq::<Seq<char>>::empty() + kept(s) =~= kept(s));
}

/// The pieces of two texts joined by a comma are the pieces of the first
/// followed by the pieces of the second.
pub proof fn lemma_pieces_split(a: Seq<char>, b: Seq<char>)
    ensures
        pieces(a + seq![','] + b) == pieces(a) + pieces(b),
        last_piece(a + seq![','] + b) == last_piece(b),
        closed_pieces(a + seq![','] + b) == pieces(a) + closed_pieces(b),
    decreases b.len(),
{
    let joined = a + seq![','] + b;
    if b.len() == 0 {
        assert(joined.drop_last() =~= a);
        assert(joined.last() == ',');
        assert(pieces(a) + Seq::<Seq<char>>::empty() =~= pieces(a));
        assert(pieces(a) + pieces(b) =~= pieces(a));
        assert(closed_pieces(joined) + kept(last_piece(joined)) =~= closed_pieces(joined));
    } else {
        lemma_pieces_split(a, b.drop_last());
        assert(joined.drop_last() =~= a + seq![','] + b.drop_last());
        assert(joined.last() == b.last());
        if b.last() == ',' {
            assert(closed_pieces(joined) =~= pieces(a) + closed_pieces(b));
        }
        assert(pieces(joined) =~= pieces(a) + pieces(b));
    }
}

/// No piece is empty and none holds a comma.
pub proof fn lemma_pieces_are_plain(s: Seq<char>, i: int)
    requires
        0 <= i < pieces(s).len(),
    ensures
        pieces(s)[i].len() > 0,
        plain(pieces(s)[i]),
    decreases s.len(),
{
    lemma_last_piece_plain(s);
    if i < closed_pieces(s).len() {
        assert(s.len() > 0);
        let before = s.drop_last();
        lemma_last_piece_plain(before);
        if s.last() == ',' {
            if i < closed_pieces(before).len() {
                lemma_pieces_are_plain(before, i);
            }
        } else {
            lemma_pieces_are_plain(before, i);
        }
    }
}

proof fn lemma_last_piece_plain(s: Seq<char>)
    ensures
        plain(last_piece(s)),
    decreases s.len(),
{
    if s.len() > 0 && s.last() != ',' {
        lemma_last_piece_plain(s.drop_last());
    }
}

/// Splits `locators` at its commas and leaves the empty pieces out.
pub fn split_locators(locators: &str) -> (list: Vec<String>)
    ensures
        texts(list@) == pieces(locators@),
{
    let n = locators.unicode_len();
    let mut list: Vec<String> = Vec::new();
    let mut start: usize = 0;
    let mut i: usize = 0;
    assert(locators@.subrange(0, 0) =~= Seq::<char>::empty());
    assert(texts(list@) =~= closed_pieces(locators@.take(0)));
    while i < n
        invariant
            n == locators@.len(),
            start <= i <= n,
            texts(list@) == closed_pieces(locators@.take(i as int)),
            last_piece(locators@.take(i as int)) == locators@.subrange(start as int, i as int),
        decreases n - i,
    {
        let c = locators.get_char(i);
        let ghost read = locators@.take(i as int);
        let ghost next = locators@.take(i + 1);
        assert(next.drop_last() =~= read);
        assert(next.last() == c);
        if c == ',' {
            if start < i {
                let piece = locators.substring_char(start, i).to_owned();
                let ghost before = list@;
                list.push(piece);
                assert(texts(list@) =~= texts(before) + kept(last_piece(read)));
            } else {
                assert(locators@.subrange(start as int, i as int) =~= Seq::<char>::empty());
                assert(closed_pieces(read) + kept(last_piece(read)) =~= closed_pieces(read));
            }
            start = i + 1;
            assert(locators@.subrange(start as int, i + 1) =~= Seq::<char>::empty());
        } else {
            assert(locators@.subrange(start as int, i + 1) =~= locators@.subrange(
                start as int,
                i as int,
            ).push(c));
        }
        i += 1;
    }
    assert(locators@.take(n as int) =~= locators@);
    if start < n {
        let piece = locators.substring_char(start, n).to_owned();
        let ghost before = list@;
        list.push(piece);
        assert(texts(list@) =~= texts(before) + kept(last_piece(locators@)));
    } else {
        assert(locators@.subrange(start as int, n as int) =~= Seq::<char>::empty());
        assert(closed_pieces(locators@) + kept(last_piece(locators@)) =~= closed_pieces(locators@));
    }
    list
}

/// What zenoh makes of the text of one locator: its canonical form, or
/// `None` where zenoh rejects the text.
pub uninterp spec fn canonical_locator(text: Seq<char>) -> Option<Seq<char>>;

/// Reads one locator with zenoh's `Locator::from_str` and gives the text of
/// what was read, as `Locator::as_str` renders it.
///
/// Trusted: the result is taken to depend on `text` alone. Zenoh looks for
/// the separators of protocol, metadata and configuration in the text,
/// rejects a text without a protocol or an address or with ill-formed
/// parameters, sorts the metadata by key and drops the configuration; it
/// reads nothing but the text.
#[verifier::external_body]
fn read_locator(text: &str) -> (canon: Option<String>)
    ensures
        canonical_locator(text@) == match canon {
            Some(s) => Some(s@),
            None => None,
        },
{
    match Locator::from_str(text) {
        Ok(locator) => Some(locator.as_str().to_owned()),
        Err(_) => None,
    }
}

/// The piece at `index` of a list of locators is not a locator.
#[derive(Clone, Copy, Debug, PartialEq, Eq)]
pub struct InvalidLocator {
    pub index: usize,
}

/// Whether every one of `read` is there.
pub open spec fn all_read(read: Seq<Option<Seq<char>>>) -> bool {
    forall|i: int| 0 <= i < read.len() ==> read[i] is Some
}

/// Whether `index` is the first place of `read` at which nothing is.
pub open spec fn first_missing(read: Seq<Option<Seq<char>>>, index: int) -> bool {
    &&& 0 <= index < read.len()
    &&& read[index] is None
    &&& forall|j: int| 0 <= j < index ==> read[j] is Some
}

/// Whether `list` holds what was `read`, one for one.
pub open spec fn holds_read(list: Seq<Seq<char>>, read: Seq<Option<Seq<char>>>) -> bool {
    &&& list.len() == read.len()
    &&& forall|i: int| 0 <= i < read.len() ==> read[i] == Some(list[i])
}

/// What zenoh makes of each of `pieces`.
pub open spec fn canonical_all(pieces: Seq<Seq<char>>) -> Seq<Option<Seq<char>>> {
    Seq::new(pieces.len(), |i: int| canonical_locator(pieces[i]))
}

/// Gathers the locators that were read, each one `None` where its piece was
/// rejected. The result is the list of all of them where none is missing,
/// else the place of the first that is.
pub fn gather_locators(read: &Vec<Option<String>>) -> (list: Result<Vec<String>, InvalidLocator>)
    ensures
        list is Ok <==> all_read(optional_texts(read@)),
        list matches Ok(l) ==> holds_read(texts(l@), optional_texts(read@)),
        list matches Err(e) ==> first_missing(optional_texts(read@), e.index as int),
{
    let ghost all = optional_texts(read@);
    let mut list: Vec<String> = Vec::new();
    let mut i: usize = 0;
    while i < read.len()
        invariant
            i <= read.len(),
            all == optional_texts(read@),
            list@.len() == i,
            forall|j: int| 0 <= j < i ==> #[trigger] all[j] == Some(texts(list@)[j]),
        decreases read.len() - i,
    {
        match &read[i] {
            Some(locator) => {
                let ghost had = list@;
                list.push(locator.clone());
                assert forall|j: int| 0 <= j < i + 1 implies #[trigger] all[j] == Some(
                    texts(list@)[j],
                ) by {
                    if j < i {
                        assert(texts(list@)[j] == texts(had)[j]);
                    }
                }
            },
            None => {
                assert(all[i as int] is None);
                return Err(InvalidLocator { index: i });
            },
        }
        i += 1;
    }
    Ok(list)
}

/// Reads the list of locators `locators`: its pieces between commas, the
/// empty ones left out, each in the canonical form that zenoh gives it.
/// Where zenoh rejects a piece, the error names the first such piece.
pub fn parse_locators(locators: &str) -> (list: Result<Vec<String>, InvalidLocator>)
    ensures
        list is Ok <==> all_read(canonical_all(pieces(locators@))),
        list matches Ok(l) ==> holds_read(texts(l@), canonical_all(pieces(locators@))),
        list matches Err(e) ==> first_missing(canonical_all(pieces(locators@)), e.index as int),
{
    let split = split_locators(locators);
    let mut read: Vec<Option<String>> = Vec::new();
    let mut i: usize = 0;
    while i < split.len()
        invariant
            i <= split.len(),
            texts(split@) == pieces(locators@),
            read@.len() == i,
            optional_texts(read@) =~= canonical_all(pieces(locators@)).take(i as int),
        decreases split.len() - i,
    {
        let ghost k = i as int;
        let ghost had = read@;
        assert(texts(split@)[k] == split@[k]@);
        let canon = read_locator(split[i].as_str());
        read.push(canon);
        i += 1;
        assert(optional_texts(read@)[k] == canonical_locator(pieces(locators@)[k]));
        assert forall|j: int| 0 <= j < k implies optional_texts(read@)[j] == canonical_all(
            pieces(locators@),
        )[j] by {
            assert(optional_texts(read@)[j] == optional_texts(had)[j]);
        }
        assert(optional_texts(read@) =~= canonical_all(pieces(locators@)).take(i as int));
    }
    assert(canonical_all(pieces(locators@)).take(i as int) =~= canonical_all(pieces(locators@)));
    gather_locators(&read)
}

} // verus!
