//! Choosing the image to download among the entries of a directory.

use crate::image::{opened, DownloadFileType, Image, ImageKind};
use vstd::prelude::*;

verus! {

/// Why a directory gives no image to download.
#[derive(Clone, Copy, Debug, PartialEq, Eq, Structural)]
pub enum SelectError {
    /// A regular file's name is not valid Unicode.
    InvalidEntry,
    /// No entry of the directory is an image.
    NoFileFound,
    /// Several images were there, and the question which one was left
    /// unanswered.
    SelectionAborted,
}

/// What was read of a file: the bytes at its start and its total size.
#[derive(Debug, PartialEq, Eq)]
pub struct Content {
    pub header: Vec<u8>,
    pub size: u64,
}

/// One entry of the scanned directory.
#[derive(Debug, PartialEq, Eq)]
pub struct Entry {
    /// Whether the entry is a regular file.
    pub is_file: bool,
    /// The entry's name without its directory, where it is valid Unicode.
    pub file_name: Option<String>,
    /// What was read of the file; `None` where it was not read or could not
    /// be.
    pub content: Option<Content>,
}

/// The outcome of a scan.
#[derive(Debug, PartialEq, Eq)]
pub enum Selection {
    /// This image; nothing is left to ask.
    Chosen(DownloadFileType),
    /// One of these, in the order of the scan; which one is to be asked,
    /// with the first as the default.
    Prompt(Vec<DownloadFileType>),
}

/// What a `Selection` stands for.
pub enum SelectionView {
    Chosen(Image),
    Prompt(Seq<Image>),
}

/// What each of the images in `found` stands for.
pub open spec fn images(found: Seq<DownloadFileType>) -> Seq<Image> {
    found.map_values(|file: DownloadFileType| file@)
}

impl View for Selection {
    type V = SelectionView;

    open spec fn view(&self) -> SelectionView {
        match self {
            Selection::Chosen(file) => SelectionView::Chosen(file@),
            Selection::Prompt(found) => SelectionView::Prompt(images(found@)),
        }
    }
}

/// Whether `name` is that of a hidden file.
pub open spec fn hidden(name: Seq<char>) -> bool {
    name.len() > 0 && name[0] == '.'
}

impl Entry {
    /// The entry's name as text.
    pub open spec fn name(&self) -> Option<Seq<char>> {
        match self.file_name {
            Some(name) => Some(name@),
            None => None,
        }
    }

    /// Whether the scan reads the entry: it does so for a regular file that
    /// is not hidden. A regular file without a name in Unicode ends the
    /// scan.
    pub open spec fn wanted(&self) -> Result<bool, SelectError> {
        if !self.is_file {
            Ok(false)
        } else {
            match self.file_name {
                Some(name) => Ok(!hidden(name@)),
                None => Err(SelectError::InvalidEntry),
            }
        }
    }

    /// The image that the entry adds to the candidates: the one that its
    /// content was opened as, under its bare name. A file that was not read
    /// or is no image adds none.
    pub open spec fn candidate(&self) -> Option<Image> {
        if self.wanted() == Ok::<bool, SelectError>(true) && self.content is Some {
            match opened(self.file_name->0@, self.content->0.header@, self.content->0.size) {
                Ok(image) => Some(image),
                Err(_) => None,
            }
        } else {
            None
        }
    }

    /// Tells whether the scan reads the entry.
    pub fn is_wanted(&self) -> (wanted: Result<bool, SelectError>)
        ensures
            wanted == self.wanted(),
    {
        if !self.is_file {
            return Ok(false);
        }
        match &self.file_name {
            Some(name) => {
                let name = name.as_str();
                Ok(!(name.unicode_len() > 0 && name.get_char(0) == '.'))
            },
            None => Err(SelectError::InvalidEntry),
        }
    }
}

/// The candidates that the entries of `listing` add up to, in their order.
pub open spec fn candidates(listing: Seq<Entry>) -> Seq<Image>
    decreases listing.len(),
{
    if listing.len() == 0 {
        Seq::empty()
    } else {
        let before = candidates(listing.drop_last());
        match listing.last().candidate() {
            Some(image) => before.push(image),
            None => before,
        }
    }
}

/// The index of the first package among `found` at or after `from`, or the
/// length of `found` where none follows.
pub open spec fn first_package(found: Seq<Image>, from: int) -> int
    decreases found.len() - from,
{
    if 0 <= from < found.len() && found[from].kind != ImageKind::Package {
        first_package(found, from + 1)
    } else {
        from
    }
}

/// The choice among the candidates `found`: a single one is taken, of
/// several the first package, and without a package the choice is left
/// open.
pub open spec fn choice(found: Seq<Image>) -> Result<SelectionView, SelectError> {
    if found.len() == 0 {
        Err(SelectError::NoFileFound)
    } else if found.len() == 1 {
        Ok(SelectionView::Chosen(found[0]))
    } else if first_package(found, 0) < found.len() {
        Ok(SelectionView::Chosen(found[first_package(found, 0)]))
    } else {
        Ok(SelectionView::Prompt(found))
    }
}

/// The outcome of the scan of a directory with the entries `listing`.
pub open spec fn selection(listing: Seq<Entry>) -> Result<SelectionView, SelectError> {
    if exists|i: int| 0 <= i < listing.len() && (#[trigger] listing[i]).wanted() is Err {
        Err(SelectError::InvalidEntry)
    } else {
        choice(candidates(listing))
    }
}

/// The first package is found between `from` and the end, and no candidate
/// before it is a package.
pub proof fn lemma_first_package(found: Seq<Image>, from: int)
    requires
        0 <= from <= found.len(),
    ensures
        from <= first_package(found, from) <= found.len(),
        forall|i: int|
            from <= i < first_package(found, from) ==> (#[trigger] found[i]).kind != ImageKind::Package,
        first_package(found, from) < found.len() ==> found[first_package(found, from)].kind
            == ImageKind::Package,
    decreases found.len() - from,
{
    if from < found.len() && found[from].kind != ImageKind::Package {
        lemma_first_package(found, from + 1);
    }
}

/// Where a package is among the candidates, the first package is chosen
/// and nothing is left to ask, however many other candidates there are.
pub proof fn lemma_package_first(found: Seq<Image>, at: int)
    requires
        0 <= at < found.len(),
        found[at].kind == ImageKind::Package,
        forall|i: int| 0 <= i < at ==> (#[trigger] found[i]).kind != ImageKind::Package,
    ensures
        choice(found) == Ok::<SelectionView, SelectError>(SelectionView::Chosen(found[at])),
{
    lemma_first_package(found, 0);
}

/// Several candidates without a package leave the choice open: all of them
/// are offered, in their order.
pub proof fn lemma_prompt(found: Seq<Image>)
    requires
        found.len() >= 2,
        forall|i: int| 0 <= i < found.len() ==> (#[trigger] found[i]).kind != ImageKind::Package,
    ensures
        choice(found) == Ok::<SelectionView, SelectError>(SelectionView::Prompt(found)),
{
    lemma_first_package(found, 0);
}

/// The candidates of two listings, one behind the other, are the
/// candidates of the first with those of the second behind them.
pub proof fn lemma_candidates_concat(first: Seq<Entry>, second: Seq<Entry>)
    ensures
        candidates(first + second) == candidates(first) + candidates(second),
    decreases second.len(),
{
    if second.len() == 0 {
        assert(first + second =~= first);
        assert(candidates(first) + candidates(second) =~= candidates(first));
    } else {
        lemma_candidates_concat(first, second.drop_last());
        assert((first + second).drop_last() =~= first + second.drop_last());
        assert(candidates(first + second) =~= candidates(first) + candidates(second));
    }
}

/// Every candidate comes from an entry of the listing.
pub proof fn lemma_candidates_come_from_entries(listing: Seq<Entry>, at: int)
    requires
        0 <= at < candidates(listing).len(),
    ensures
        exists|i: int|
            0 <= i < listing.len() && (#[trigger] listing[i]).candidate() == Some(
                candidates(listing)[at],
            ),
    decreases listing.len(),
{
    let before = candidates(listing.drop_last());
    if at < before.len() {
        lemma_candidates_come_from_entries(listing.drop_last(), at);
        let i = choose|i: int|
            0 <= i < listing.drop_last().len() && (#[trigger] listing.drop_last()[i]).candidate()
                == Some(before[at]);
        assert(listing[i] == listing.drop_last()[i]);
    } else {
        assert(listing[listing.len() - 1] == listing.last());
    }
}

/// A directory without an image gives `NoFileFound`, as long as it holds
/// no regular file with a name that is not valid Unicode.
pub proof fn lemma_no_image_no_file(listing: Seq<Entry>)
    requires
        forall|i: int| 0 <= i < listing.len() ==> (#[trigger] listing[i]).wanted() is Ok,
        forall|i: int| 0 <= i < listing.len() ==> (#[trigger] listing[i]).candidate() is None,
    ensures
        selection(listing) == Err::<SelectionView, SelectError>(SelectError::NoFileFound),
{
    if candidates(listing).len() > 0 {
        lemma_candidates_come_from_entries(listing, 0);
    }
}

/// A directory with a package gives its first package, and nothing is left
/// to ask, whatever other images it holds; as long as it holds no regular
/// file with a name that is not valid Unicode.
pub proof fn lemma_package_wins(listing: Seq<Entry>, at: int)
    requires
        forall|i: int| 0 <= i < listing.len() ==> (#[trigger] listing[i]).wanted() is Ok,
        0 <= at < listing.len(),
        listing[at].candidate() matches Some(image) && image.kind == ImageKind::Package,
        forall|i: int|
            0 <= i < at ==> ((#[trigger] listing[i]).candidate() matches Some(image) ==> image.kind
                != ImageKind::Package),
    ensures
        selection(listing) == Ok::<SelectionView, SelectError>(
            SelectionView::Chosen(listing[at].candidate()->0),
        ),
{
    let head = listing.take(at);
    let one = seq![listing[at]];
    let tail = listing.skip(at + 1);
    assert(listing =~= head + one + tail);
    lemma_candidates_concat(head, one);
    lemma_candidates_concat(head + one, tail);
    assert(one.drop_last() =~= Seq::<Entry>::empty());
    assert(candidates(one) =~= seq![listing[at].candidate()->0]) by {
        reveal_with_fuel(candidates, 2);
    }
    let found = candidates(listing);
    let index = candidates(head).len() as int;
    assert(found[index] == listing[at].candidate()->0);
    assert forall|k: int| 0 <= k < index implies (#[trigger] found[k]).kind
        != ImageKind::Package by {
        lemma_candidates_come_from_entries(head, k);
        let i = choose|i: int|
            0 <= i < head.len() && (#[trigger] head[i]).candidate() == Some(candidates(head)[k]);
        assert(head[i] == listing[i]);
        assert(found[k] == candidates(head)[k]);
    }
    lemma_package_first(found, index);
}

/// Picks the image to download among the entries of a directory, given in
/// the order of the scan. Entries that are not images are passed over
/// without a word.
pub fn get_file(listing: &[Entry]) -> (picked: Result<Selection, SelectError>)
    ensures
        match selection(listing@) {
            Ok(expected) => picked matches Ok(found) && found@ == expected,
            Err(error) => picked == Err::<Selection, SelectError>(error),
        },
{
    let mut found: Vec<DownloadFileType> = Vec::new();
    let mut i: usize = 0;
    while i < listing.len()
        invariant
            i <= listing.len(),
            images(found@) == candidates(listing@.take(i as int)),
            forall|j: int| 0 <= j < i ==> (#[trigger] listing[j]).wanted() is Ok,
        decreases listing.len() - i,
    {
        let entry = &listing[i];
        proof {
            assert(listing@.take(i + 1).drop_last() == listing@.take(i as int));
        }
        match entry.is_wanted() {
            Err(error) => {
                return Err(error);
            },
            Ok(false) => {},
            Ok(true) => {
                match (&entry.file_name, &entry.content) {
                    (Some(name), Some(content)) => {
                        match DownloadFileType::open(
                            name.as_str(),
                            content.header.as_slice(),
                            content.size,
                        ) {
                            Ok(file) => {
                                proof {
                                    assert(images(found@.push(file)) == images(found@).push(file@));
                                }
                                found.push(file);
                            },
                            Err(_) => {},
                        }
                    },
                    _ => {},
                }
            },
        }
        i += 1;
    }
    proof {
        assert(listing@.take(listing.len() as int) == listing@);
    }
    choose_among(found)
}

/// Applies the choice to the candidates `found`.
fn choose_among(found: Vec<DownloadFileType>) -> (picked: Result<Selection, SelectError>)
    ensures
        match choice(images(found@)) {
            Ok(expected) => picked matches Ok(selection) && selection@ == expected,
            Err(error) => picked == Err::<Selection, SelectError>(error),
        },
{
    let mut found = found;
    if found.len() == 0 {
        return Err(SelectError::NoFileFound);
    }
    if found.len() == 1 {
        return Ok(Selection::Chosen(found.remove(0)));
    }
    let mut at: usize = 0;
    while at < found.len() && found[at].kind() != ImageKind::Package
        invariant
            at <= found.len(),
            first_package(images(found@), 0) == first_package(images(found@), at as int),
        decreases found.len() - at,
    {
        at += 1;
    }
    if at < found.len() {
        Ok(Selection::Chosen(found.swap_remove(at)))
    } else {
        Ok(Selection::Prompt(found))
    }
}

impl Selection {
    /// Settles the selection with the answer to the prompt: the index of
    /// the candidate that was picked, or `None` where the prompt was
    /// cancelled. A selection that left nothing to ask stays as it is.
    pub fn settle(self, answer: Option<usize>) -> (picked: Result<DownloadFileType, SelectError>)
        requires
            self matches Selection::Prompt(found) ==> (answer matches Some(i) ==> i < found.len()),
        ensures
            match (self, answer) {
                (Selection::Chosen(file), _) => picked matches Ok(same) && same@ == file@,
                (Selection::Prompt(found), Some(i)) => picked matches Ok(file) && file@
                    == found[i as int]@,
                (Selection::Prompt(_), None) => picked == Err::<DownloadFileType, SelectError>(
                    SelectError::SelectionAborted,
                ),
            },
    {
        match self {
            Selection::Chosen(file) => Ok(file),
            Selection::Prompt(found) => {
                let mut found = found;
                match answer {
                    Some(i) => Ok(found.swap_remove(i)),
                    None => Err(SelectError::SelectionAborted),
                }
            },
        }
    }
}

} // verus!
