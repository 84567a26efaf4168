//! Where a feed comes from: its bytes as they are, or a compressed container
//! that holds the feed as its only member.

use vstd::prelude::*;
use crate::error::{Error, ErrorView};

verus! {

/// How many members a container holds, or why it cannot be opened.
pub uninterp spec fn archive_length(archive: Seq<u8>) -> Result<usize, Seq<char>>;

/// The bytes of a container's member, or why they cannot be had.
pub uninterp spec fn archive_member(archive: Seq<u8>, index: usize) -> Result<Seq<u8>, Seq<char>>;

/// `zip::ZipArchive::new` on bytes in memory, and `zip::ZipArchive::len`.
/// An error is handed on as its message.
#[verifier::external_body]
fn count_members(archive: &[u8]) -> (count: Result<usize, String>)
    ensures
        match count {
            Ok(n) => archive_length(archive@) == Ok::<usize, Seq<char>>(n),
            Err(msg) => archive_length(archive@) == Err::<usize, Seq<char>>(msg@),
        },
{
    zip::ZipArchive::new(std::io::Cursor::new(archive)).map(|zip| zip.len()).map_err(
        |e| e.to_string(),
    )
}

/// `zip::ZipArchive::by_index_decrypt` on bytes in memory, with the empty
/// password, and the member read to its end. A member that is not encrypted
/// needs no password and is read as it is. A failure of the archive, of the
/// password or of reading is handed on as its message.
#[verifier::external_body]
fn read_member(archive: &[u8], index: usize) -> (bytes: Result<Vec<u8>, String>)
    ensures
        match bytes {
            Ok(bytes) => archive_member(archive@, index) == Ok::<Seq<u8>, Seq<char>>(bytes@),
            Err(msg) => archive_member(archive@, index) == Err::<Seq<u8>, Seq<char>>(msg@),
        },
{
    let mut zip = zip::ZipArchive::new(std::io::Cursor::new(archive)).map_err(|e| e.to_string())?;
    let mut member = match zip.by_index_decrypt(index, &[]).map_err(|e| e.to_string())? {
        Ok(member) => member,
        Err(e) => return Err(e.to_string()),
    };
    let mut bytes = Vec::new();
    std::io::Read::read_to_end(&mut member, &mut bytes).map_err(|e| e.to_string())?;
    Ok(bytes)
}

/// Where a feed comes from.
#[derive(Debug, Clone, PartialEq, Eq)]
pub enum Source {
    /// The bytes of a compressed container.
    Zip(Vec<u8>),
    /// The bytes of the feed itself.
    UnZipped(Vec<u8>),
}

/// The view of a [`Source`].
pub enum SourceView {
    Zip(Seq<u8>),
    UnZipped(Seq<u8>),
}

impl View for Source {
    type V = SourceView;

    open spec fn view(&self) -> SourceView {
        match *self {
            Source::Zip(bytes) => SourceView::Zip(bytes@),
            Source::UnZipped(bytes) => SourceView::UnZipped(bytes@),
        }
    }
}

/// A container must hold exactly one member.
pub open spec fn single_member(members: usize) -> Result<(), ErrorView> {
    if members == 1 {
        Ok(())
    } else {
        Err(ErrorView::ContainerShape { members })
    }
}

/// The feed that a container holds: its only member. A container that cannot
/// be opened is a failure, and so is one with no member or with several,
/// whatever they hold.
pub open spec fn unzipped(archive: Seq<u8>) -> Result<Seq<u8>, ErrorView> {
    match archive_length(archive) {
        Err(msg) => Err(ErrorView::Stream { msg }),
        Ok(members) => match single_member(members) {
            Err(e) => Err(e),
            Ok(()) => match archive_member(archive, 0) {
                Err(msg) => Err(ErrorView::Stream { msg }),
                Ok(bytes) => Ok(bytes),
            },
        },
    }
}

/// The feed of a source.
pub open spec fn feed_of(source: SourceView) -> Result<Seq<u8>, ErrorView> {
    match source {
        SourceView::Zip(archive) => unzipped(archive),
        SourceView::UnZipped(bytes) => Ok(bytes),
    }
}

/// A feed was had, or not, as `expected` says.
pub open spec fn feed_is(
    expected: Result<Seq<u8>, ErrorView>,
    feed: Result<Vec<u8>, Error>,
) -> bool {
    match feed {
        Ok(bytes) => expected == Ok::<Seq<u8>, ErrorView>(bytes@),
        Err(e) => expected == Err::<Seq<u8>, ErrorView>(e.deep_view()),
    }
}

/// A container that does not hold exactly one member is refused for its
/// shape, whatever its members hold: none of them is read.
pub proof fn lemma_wrong_shape_is_refused(archive: Seq<u8>, members: usize)
    requires
        archive_length(archive) == Ok::<usize, Seq<char>>(members),
        members != 1,
    ensures
        unzipped(archive) == Err::<Seq<u8>, ErrorView>(ErrorView::ContainerShape { members }),
        feed_of(SourceView::Zip(archive)) == unzipped(archive),
{
}

/// Checks that a container with `members` members holds exactly one.
pub fn check_single_member(members: usize) -> (result: Result<(), Error>)
    ensures
        match result {
            Ok(()) => single_member(members) == Ok::<(), ErrorView>(()),
            Err(e) => single_member(members) == Err::<(), ErrorView>(e.deep_view()),
        },
{
    if members == 1 {
        Ok(())
    } else {
        Err(Error::ContainerShape { members })
    }
}

/// Takes the feed out of a compressed container.
pub fn unzip(archive: &[u8]) -> (feed: Result<Vec<u8>, Error>)
    ensures
        feed_is(unzipped(archive@), feed),
{
    let members = match count_members(archive) {
        Ok(members) => members,
        Err(msg) => {
            return Err(Error::Stream { msg });
        },
    };
    match check_single_member(members) {
        Ok(()) => {},
        Err(e) => {
            return Err(e);
        },
    }
    match read_member(archive, 0) {
        Ok(bytes) => Ok(bytes),
        Err(msg) => Err(Error::Stream { msg }),
    }
}

impl Source {
    /// The bytes of the feed.
    pub fn into_feed(self) -> (feed: Result<Vec<u8>, Error>)
        ensures
            feed_is(feed_of(self@), feed),
    {
        match self {
            Source::Zip(archive) => unzip(archive.as_slice()),
            Source::UnZipped(bytes) => Ok(bytes),
        }
    }
}

} // verus!
