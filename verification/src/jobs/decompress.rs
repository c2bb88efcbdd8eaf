//! Transparent ZIP decompression for fetched feed bodies, with a ceiling on what it may expand to.
//!
//! A feed may be distributed as an archive holding plain-text or JSON members. Parsers always
//! receive decompressed bytes, so every parser gains archive support without knowing of it. A
//! hostile payload can expand enormously: both [`decompress_if_zip`] and [`CappedBody`] stop as soon
//! as the running total crosses the ceiling, before the excess is materialised.

use std::io::Read;

use vstd::prelude::*;

use crate::text;

verus! {

/// Failure modes of decompression, and of reading a body under a ceiling.
#[derive(Debug)]
pub enum DecompressError {
    /// The archive could not be opened.
    OpenArchive(String),
    /// The archive contains nothing but directories, if anything.
    EmptyArchive,
    /// A member of the archive, or the body itself, could not be read.
    ReadMember(String),
    /// The stream exceeded the ceiling before it finished.
    TooLarge {
        /// The ceiling that was exceeded.
        limit_bytes: u64,
    },
}

/// What a [`DecompressError`] says.
pub enum DecompressFault {
    /// The archive could not be opened.
    OpenArchive(Seq<char>),
    /// The archive contains nothing but directories, if anything.
    EmptyArchive,
    /// A member of the archive could not be read.
    ReadMember(Seq<char>),
    /// The stream exceeded the ceiling.
    TooLarge(u64),
}

impl View for DecompressError {
    type V = DecompressFault;

    open spec fn view(&self) -> DecompressFault {
        match self {
            DecompressError::OpenArchive(m) => DecompressFault::OpenArchive(m@),
            DecompressError::EmptyArchive => DecompressFault::EmptyArchive,
            DecompressError::ReadMember(m) => DecompressFault::ReadMember(m@),
            DecompressError::TooLarge { limit_bytes } => DecompressFault::TooLarge(*limit_bytes),
        }
    }
}

impl DecompressFault {
    /// The text an operator reads.
    pub open spec fn text(self) -> Seq<char> {
        match self {
            DecompressFault::OpenArchive(m) => "failed to open zip archive: "@ + m,
            DecompressFault::EmptyArchive => "zip archive contains no files"@,
            DecompressFault::ReadMember(m) => "failed to read zip archive member: "@ + m,
            DecompressFault::TooLarge(limit) => "decompressed payload exceeds the "@
                + text::decimal(limit as nat)
                + "-byte MAX_DECOMPRESSED_BYTES limit; aborting to avoid a decompression-bomb memory spike"@,
        }
    }
}

impl DecompressError {
    /// The text an operator reads.
    pub fn message(&self) -> (r: String)
        ensures
            r@ == self@.text(),
    {
        match self {
            DecompressError::OpenArchive(m) => {
                text::concat("failed to open zip archive: ", m.as_str())
            },
            DecompressError::EmptyArchive => "zip archive contains no files".to_owned(),
            DecompressError::ReadMember(m) => {
                text::concat("failed to read zip archive member: ", m.as_str())
            },
            DecompressError::TooLarge { limit_bytes } => text::concat3(
                "decompressed payload exceeds the ",
                text::decimal_string(*limit_bytes).as_str(),
                "-byte MAX_DECOMPRESSED_BYTES limit; aborting to avoid a decompression-bomb memory spike",
            ),
        }
    }
}

/// The signature of an archive's first member.
pub open spec fn local_header_magic() -> Seq<u8> {
    seq![0x50u8, 0x4bu8, 0x03u8, 0x04u8]
}

/// The signature of an archive without members.
pub open spec fn empty_archive_magic() -> Seq<u8> {
    seq![0x50u8, 0x4bu8, 0x05u8, 0x06u8]
}

/// Whether `bytes` begin with an archive signature.
pub open spec fn has_zip_magic(bytes: Seq<u8>) -> bool {
    bytes.len() >= 4 && (bytes.take(4) == local_header_magic() || bytes.take(4)
        == empty_archive_magic())
}

/// Whether `bytes` begin with an archive signature.
pub fn is_zip(bytes: &[u8]) -> (b: bool)
    ensures
        b == has_zip_magic(bytes@),
{
    let b = bytes.len() >= 4 && bytes[0] == 0x50 && bytes[1] == 0x4b && ((bytes[2] == 0x03
        && bytes[3] == 0x04) || (bytes[2] == 0x05 && bytes[3] == 0x06));
    proof {
        if bytes@.len() >= 4 {
            let head = bytes@.take(4);
            assert(head == local_header_magic() <==> head[0] == 0x50 && head[1] == 0x4b && head[2]
                == 0x03 && head[3] == 0x04) by {
                if head[0] == 0x50 && head[1] == 0x4b && head[2] == 0x03 && head[3] == 0x04 {
                    assert(head =~= local_header_magic());
                }
            }
            assert(head == empty_archive_magic() <==> head[0] == 0x50 && head[1] == 0x4b && head[2]
                == 0x05 && head[3] == 0x06) by {
                if head[0] == 0x50 && head[1] == 0x4b && head[2] == 0x05 && head[3] == 0x06 {
                    assert(head =~= empty_archive_magic());
                }
            }
        }
    }
    b
}

/// `std::io::Cursor` as an opaque type.
#[verifier::external_type_specification]
#[verifier::external_body]
#[verifier::reject_recursive_types(T)]
pub struct ExCursor<T>(std::io::Cursor<T>);

/// `zip::ZipArchive` as an opaque type.
#[verifier::external_type_specification]
#[verifier::external_body]
#[verifier::reject_recursive_types(R)]
pub struct ExZipArchive<R>(zip::ZipArchive<R>);

/// The bytes that an archive was opened on.
pub uninterp spec fn archive_bytes(archive: zip::ZipArchive<std::io::Cursor<Vec<u8>>>) -> Seq<u8>;

/// How many entries the archive in `bytes` lists, or why it cannot be opened.
pub uninterp spec fn zip_listing(bytes: Seq<u8>) -> Result<nat, Seq<char>>;

/// Whether an entry of the archive in `bytes` is a directory, or why it cannot be located.
pub uninterp spec fn zip_entry(bytes: Seq<u8>, index: nat) -> Result<bool, Seq<char>>;

/// What reading at most `limit` bytes of an entry gives.
pub uninterp spec fn zip_read(bytes: Seq<u8>, index: nat, limit: nat) -> Result<
    Seq<u8>,
    Seq<char>,
>;

/// Calls `ZipArchive::new` on a copy of the bytes. Whether it opens, and what is said where it does
/// not, is a function of the bytes; an archive that opens stays on them.
#[verifier::external_body]
fn open_archive(bytes: &[u8]) -> (r: Result<zip::ZipArchive<std::io::Cursor<Vec<u8>>>, String>)
    ensures
        match r {
            Ok(archive) => zip_listing(bytes@) is Ok && archive_bytes(archive) == bytes@,
            Err(fault) => zip_listing(bytes@) == Err::<nat, Seq<char>>(fault@),
        },
{
    match zip::ZipArchive::new(std::io::Cursor::new(bytes.to_vec())) {
        Ok(archive) => Ok(archive),
        Err(e) => Err(e.to_string()),
    }
}

/// Calls `ZipArchive::len`, which gives the number of entries in the central directory.
#[verifier::external_body]
fn archive_len(archive: &zip::ZipArchive<std::io::Cursor<Vec<u8>>>) -> (n: usize)
    requires
        zip_listing(archive_bytes(*archive)) is Ok,
    ensures
        n == zip_listing(archive_bytes(*archive))->Ok_0,
{
    archive.len()
}

/// Calls `ZipArchive::by_index` and `ZipFile::is_dir`. What comes back is a function of the bytes and
/// the index, an index out of range included, and the archive stays on its bytes.
#[verifier::external_body]
fn entry_is_dir(
    archive: &mut zip::ZipArchive<std::io::Cursor<Vec<u8>>>,
    index: usize,
) -> (r: Result<bool, String>)
    ensures
        archive_bytes(*final(archive)) == archive_bytes(*old(archive)),
        match r {
            Ok(dir) => zip_entry(archive_bytes(*old(archive)), index as nat) == Ok::<
                bool,
                Seq<char>,
            >(dir),
            Err(fault) => zip_entry(archive_bytes(*old(archive)), index as nat) == Err::<
                bool,
                Seq<char>,
            >(fault@),
        },
{
    match archive.by_index(index) {
        Ok(entry) => Ok(entry.is_dir()),
        Err(e) => Err(e.to_string()),
    }
}

/// Calls `ZipArchive::by_index` and reads the entry to its end through `Read::take`, so that no
/// more than `limit` bytes come back. They are a function of the bytes, the index and the limit, and
/// so is what is said where the entry cannot be read; the archive stays on its bytes.
#[verifier::external_body]
fn read_entry(
    archive: &mut zip::ZipArchive<std::io::Cursor<Vec<u8>>>,
    index: usize,
    limit: u64,
) -> (r: Result<Vec<u8>, String>)
    ensures
        archive_bytes(*final(archive)) == archive_bytes(*old(archive)),
        match r {
            Ok(contents) => contents@.len() <= limit && zip_read(
                archive_bytes(*old(archive)),
                index as nat,
                limit as nat,
            ) == Ok::<Seq<u8>, Seq<char>>(contents@),
            Err(fault) => zip_read(archive_bytes(*old(archive)), index as nat, limit as nat)
                == Err::<Seq<u8>, Seq<char>>(fault@),
        },
{
    let mut contents = Vec::new();
    match archive.by_index(index) {
        Ok(entry) => match entry.take(limit).read_to_end(&mut contents) {
            Ok(_) => Ok(contents),
            Err(e) => Err(e.to_string()),
        },
        Err(e) => Err(e.to_string()),
    }
}

/// Whether a line break goes between what came before and the next member.
pub open spec fn needs_break(before: Seq<u8>) -> bool {
    before.len() > 0 && before.last() != 10u8
}

/// One member's contents after what came before, on a line of their own.
pub open spec fn joined(before: Seq<u8>, contents: Seq<u8>) -> Seq<u8> {
    if needs_break(before) {
        before.push(10u8) + contents
    } else {
        before + contents
    }
}

/// How many bytes of the next member may be kept: the line break before it is charged like any other
/// byte.
pub open spec fn budget(max: u64, before: Seq<u8>) -> nat {
    let done = if needs_break(before) {
        before.len() + 1
    } else {
        before.len()
    };
    if done < max {
        (max - done) as nat
    } else {
        0
    }
}

/// How many bytes of a member are read: one more than may be kept, so that an excess shows.
pub open spec fn read_limit(budget: nat) -> nat {
    if budget < u64::MAX {
        budget + 1
    } else {
        u64::MAX as nat
    }
}

/// What the first `n` entries of the archive in `bytes` decompress to under the ceiling `max`.
pub open spec fn unpacked(bytes: Seq<u8>, max: u64, n: nat) -> Result<Seq<u8>, DecompressFault>
    decreases n,
{
    if n == 0 {
        Ok(Seq::empty())
    } else {
        let index = (n - 1) as nat;
        match unpacked(bytes, max, index) {
            Err(fault) => Err(fault),
            Ok(before) => match zip_entry(bytes, index) {
                Err(fault) => Err(DecompressFault::ReadMember(fault)),
                Ok(true) => Ok(before),
                Ok(false) => {
                    let left = budget(max, before);
                    if left == 0 {
                        Err(DecompressFault::TooLarge(max))
                    } else {
                        match zip_read(bytes, index, read_limit(left)) {
                            Err(fault) => Err(DecompressFault::ReadMember(fault)),
                            Ok(contents) => if contents.len() > left {
                                Err(DecompressFault::TooLarge(max))
                            } else {
                                Ok(joined(before, contents))
                            },
                        }
                    }
                },
            },
        }
    }
}

/// Whether a file is among the first `n` entries of the archive in `bytes`.
pub open spec fn has_file(bytes: Seq<u8>, n: nat) -> bool {
    exists|i: nat| i < n && #[trigger] zip_entry(bytes, i) == Ok::<bool, Seq<char>>(false)
}

/// What a feed body decompresses to.
pub open spec fn decompressed(bytes: Seq<u8>, max: u64) -> Result<Seq<u8>, DecompressFault> {
    if !has_zip_magic(bytes) {
        Ok(bytes)
    } else {
        match zip_listing(bytes) {
            Err(fault) => Err(DecompressFault::OpenArchive(fault)),
            Ok(n) => match unpacked(bytes, max, n) {
                Err(fault) => Err(fault),
                Ok(out) => if has_file(bytes, n) {
                    Ok(out)
                } else {
                    Err(DecompressFault::EmptyArchive)
                },
            },
        }
    }
}

/// Once unpacking has failed, further entries do not mend it.
proof fn lemma_unpacked_stays_failed(bytes: Seq<u8>, max: u64, i: nat, n: nat)
    requires
        i <= n,
        unpacked(bytes, max, i) is Err,
    ensures
        unpacked(bytes, max, n) == unpacked(bytes, max, i),
    decreases n,
{
    if i < n {
        lemma_unpacked_stays_failed(bytes, max, i, (n - 1) as nat);
    }
}

/// What an archive unpacks to keeps under the ceiling, the line breaks between members included.
pub proof fn law_unpacked_is_capped(bytes: Seq<u8>, max: u64, n: nat)
    ensures
        unpacked(bytes, max, n) matches Ok(out) ==> out.len() <= max,
    decreases n,
{
    if n > 0 {
        law_unpacked_is_capped(bytes, max, (n - 1) as nat);
    }
}

/// Whether a line break goes between what came before and the next member.
fn ends_inside_a_line(combined: &Vec<u8>) -> (b: bool)
    ensures
        b == needs_break(combined@),
{
    combined.len() > 0 && combined[combined.len() - 1] != 10
}

/// Appends a member's contents, on a line of their own.
pub fn join_member(combined: &mut Vec<u8>, contents: &Vec<u8>)
    ensures
        final(combined)@ == joined(old(combined)@, contents@),
{
    if ends_inside_a_line(combined) {
        combined.push(10);
    }
    let ghost start = combined@;
    for i in 0..contents.len()
        invariant
            combined@ == start + contents@.take(i as int),
    {
        combined.push(contents[i]);
        assert(contents@.take(i + 1) =~= contents@.take(i as int).push(contents@[i as int]));
    }
    assert(contents@.take(contents@.len() as int) =~= contents@);
}

/// If `bytes` is a ZIP archive, decompresses and concatenates its members, each starting on a new
/// line; directories are passed over, and an archive of nothing else is empty. Otherwise gives the
/// bytes back unchanged.
///
/// The ceiling applies to the combined output, the line breaks between members included: each member
/// is read only as far as its remaining share, plus one byte to notice an excess.
pub fn decompress_if_zip(bytes: &[u8], max_decompressed_bytes: u64) -> (r: Result<
    Vec<u8>,
    DecompressError,
>)
    ensures
        match r {
            Ok(out) => decompressed(bytes@, max_decompressed_bytes) == Ok::<
                Seq<u8>,
                DecompressFault,
            >(out@),
            Err(e) => decompressed(bytes@, max_decompressed_bytes) == Err::<
                Seq<u8>,
                DecompressFault,
            >(e@),
        },
        has_zip_magic(bytes@) ==> (r matches Ok(out) ==> out@.len() <= max_decompressed_bytes),
{
    if !is_zip(bytes) {
        return Ok(vstd::slice::slice_to_vec(bytes));
    }
    let mut archive = match open_archive(bytes) {
        Ok(archive) => archive,
        Err(fault) => return Err(DecompressError::OpenArchive(fault)),
    };
    let count: usize = archive_len(&archive);
    let mut has_files = false;
    let mut combined: Vec<u8> = Vec::new();
    for i in 0..count
        invariant
            archive_bytes(archive) == bytes@,
            has_zip_magic(bytes@),
            zip_listing(bytes@) == Ok::<nat, Seq<char>>(count as nat),
            has_files == has_file(bytes@, i as nat),
            unpacked(bytes@, max_decompressed_bytes, i as nat) == Ok::<Seq<u8>, DecompressFault>(
                combined@,
            ),
    {
        proof {
            if unpacked(bytes@, max_decompressed_bytes, (i + 1) as nat) is Err {
                lemma_unpacked_stays_failed(
                    bytes@,
                    max_decompressed_bytes,
                    (i + 1) as nat,
                    count as nat,
                );
            }
        }
        let is_dir = match entry_is_dir(&mut archive, i) {
            Ok(is_dir) => is_dir,
            Err(fault) => return Err(DecompressError::ReadMember(fault)),
        };
        if !is_dir {
            let separator: u64 = if ends_inside_a_line(&combined) {
                1
            } else {
                0
            };
            let left: u64 = max_decompressed_bytes.saturating_sub(combined.len() as u64).saturating_sub(
                separator,
            );
            if left == 0 {
                return Err(DecompressError::TooLarge { limit_bytes: max_decompressed_bytes });
            }
            let limit: u64 = left.saturating_add(1);
            assert(left == budget(max_decompressed_bytes, combined@));
            assert(limit == read_limit(left as nat));
            let contents = match read_entry(&mut archive, i, limit) {
                Ok(contents) => contents,
                Err(fault) => return Err(DecompressError::ReadMember(fault)),
            };
            if contents.len() as u64 > left {
                return Err(DecompressError::TooLarge { limit_bytes: max_decompressed_bytes });
            }
            join_member(&mut combined, &contents);
            has_files = true;
        }
        proof {
            if has_files {
                let k = if is_dir {
                    choose|k: nat|
                        k < i && #[trigger] zip_entry(bytes@, k) == Ok::<bool, Seq<char>>(false)
                } else {
                    i as nat
                };
                assert(zip_entry(bytes@, k) == Ok::<bool, Seq<char>>(false));
            }
        }
    }
    if !has_files {
        return Err(DecompressError::EmptyArchive);
    }
    proof {
        law_unpacked_is_capped(bytes@, max_decompressed_bytes, count as nat);
    }
    Ok(combined)
}

/// A body being received under a ceiling.
pub struct CappedBody {
    received: Vec<u8>,
    max_bytes: u64,
}

impl CappedBody {
    /// What has been received.
    pub closed spec fn bytes(self) -> Seq<u8> {
        self.received@
    }

    /// The ceiling.
    pub closed spec fn limit(self) -> u64 {
        self.max_bytes
    }

    /// What has been received keeps under the ceiling.
    #[verifier::type_invariant]
    spec fn under_the_ceiling(self) -> bool {
        self.received@.len() <= self.max_bytes
    }

    /// A body of which nothing has been received.
    pub fn new(max_bytes: u64) -> (body: Self)
        ensures
            body.bytes() == Seq::<u8>::empty(),
            body.limit() == max_bytes,
    {
        CappedBody { received: Vec::new(), max_bytes }
    }

    /// Takes the next piece of the body, or refuses it if the ceiling would be crossed.
    pub fn push_chunk(self, chunk: &[u8]) -> (r: Result<Self, DecompressError>)
        ensures
            if self.bytes().len() + chunk@.len() > self.limit() {
                r is Err && r->Err_0@ == DecompressFault::TooLarge(self.limit())
            } else {
                r is Ok && r->Ok_0.bytes() == self.bytes() + chunk@ && r->Ok_0.limit()
                    == self.limit()
            },
    {
        proof {
            use_type_invariant(&self);
        }
        let max_bytes = self.max_bytes;
        let mut received = self.received;
        if chunk.len() as u64 > max_bytes - received.len() as u64 {
            return Err(DecompressError::TooLarge { limit_bytes: max_bytes });
        }
        let ghost start = received@;
        for i in 0..chunk.len()
            invariant
                received@ == start + chunk@.take(i as int),
        {
            received.push(chunk[i]);
            assert(chunk@.take(i + 1) =~= chunk@.take(i as int).push(chunk@[i as int]));
        }
        assert(chunk@.take(chunk@.len() as int) =~= chunk@);
        Ok(CappedBody { received, max_bytes })
    }

    /// The whole body.
    pub fn finish(self) -> (r: Vec<u8>)
        ensures
            r@ == self.bytes(),
            r@.len() <= self.limit(),
    {
        proof {
            use_type_invariant(&self);
        }
        self.received
    }
}

/// A body is taken for an archive exactly where it starts with the signature of a member or of an
/// empty archive; every other body is given back as it is, however large.
pub proof fn law_plain_bodies_are_left_alone(bytes: Seq<u8>, max: u64)
    ensures
        has_zip_magic(bytes) <==> bytes.len() >= 4 && bytes[0] == 'P' as u8 && bytes[1] == 'K' as u8
            && ((bytes[2] == 3 && bytes[3] == 4) || (bytes[2] == 5 && bytes[3] == 6)),
        !has_zip_magic(bytes) ==> decompressed(bytes, max) == Ok::<Seq<u8>, DecompressFault>(bytes),
{
    if bytes.len() >= 4 {
        let head = bytes.take(4);
        assert(head[0] == bytes[0] && head[1] == bytes[1] && head[2] == bytes[2] && head[3]
            == bytes[3]);
        if bytes[0] == 'P' as u8 && bytes[1] == 'K' as u8 {
            if bytes[2] == 3 && bytes[3] == 4 {
                assert(head =~= local_header_magic());
            }
            if bytes[2] == 5 && bytes[3] == 6 {
                assert(head =~= empty_archive_magic());
            }
        }
    }
}

/// A member goes behind what came before, on a line of its own: nothing of either is lost, and the
/// only byte that may come between is a line break.
pub proof fn law_members_follow_each_other(before: Seq<u8>, contents: Seq<u8>)
    ensures
        before.len() == 0 ==> joined(before, contents) == contents,
        before.len() > 0 && before.last() == 10 ==> joined(before, contents) == before + contents,
        before.len() > 0 && before.last() != 10 ==> joined(before, contents) == before + seq![10u8]
            + contents,
{
    assert(before.len() == 0 ==> before + contents =~= contents);
    assert(before.push(10u8) =~= before + seq![10u8]);
}

/// A directory adds nothing to what an archive unpacks to; a file that is read within what is left of
/// the ceiling adds its contents; and one that is not makes the archive too large.
pub proof fn law_archives_unpack_member_by_member(bytes: Seq<u8>, max: u64, n: nat, contents: Seq<u8>)
    requires
        unpacked(bytes, max, n) is Ok,
    ensures
        zip_entry(bytes, n) == Ok::<bool, Seq<char>>(true) ==> unpacked(bytes, max, n + 1)
            == unpacked(bytes, max, n),
        zip_entry(bytes, n) == Ok::<bool, Seq<char>>(false) ==> ({
            let before = unpacked(bytes, max, n)->Ok_0;
            let room = max - joined(before, Seq::empty()).len();
            &&& room <= 0 ==> unpacked(bytes, max, n + 1) == Err::<Seq<u8>, DecompressFault>(
                DecompressFault::TooLarge(max),
            )
            &&& 0 < room < u64::MAX && zip_read(bytes, n, (room + 1) as nat) == Ok::<
                Seq<u8>,
                Seq<char>,
            >(contents) && contents.len() <= room ==> unpacked(bytes, max, n + 1) == Ok::<
                Seq<u8>,
                DecompressFault,
            >(joined(before, contents))
            &&& 0 < room < u64::MAX && zip_read(bytes, n, (room + 1) as nat) == Ok::<
                Seq<u8>,
                Seq<char>,
            >(contents) && contents.len() > room ==> unpacked(bytes, max, n + 1) == Err::<
                Seq<u8>,
                DecompressFault,
            >(DecompressFault::TooLarge(max))
        }),
        zip_entry(bytes, n) is Err ==> unpacked(bytes, max, n + 1) is Err,
        unpacked(bytes, max, 0) == Ok::<Seq<u8>, DecompressFault>(Seq::empty()),
{
    let before = unpacked(bytes, max, n)->Ok_0;
    assert(joined(before, Seq::empty()).len() == if needs_break(before) {
        before.len() + 1
    } else {
        before.len()
    });
    assert((n + 1 - 1) as nat == n);
}

/// An archive gives what all of its entries unpack to, if there is a file among them; one of
/// directories alone is empty, and one that cannot be opened is refused.
pub proof fn law_archives_give_all_of_their_entries(bytes: Seq<u8>, max: u64, n: nat, i: nat)
    requires
        has_zip_magic(bytes),
    ensures
        zip_listing(bytes) is Err ==> decompressed(bytes, max) is Err,
        zip_listing(bytes) == Ok::<nat, Seq<char>>(n) && unpacked(bytes, max, n) is Err
            ==> decompressed(bytes, max) == unpacked(bytes, max, n),
        zip_listing(bytes) == Ok::<nat, Seq<char>>(n) && unpacked(bytes, max, n) is Ok && i < n
            && zip_entry(bytes, i) == Ok::<bool, Seq<char>>(false) ==> decompressed(bytes, max)
            == unpacked(bytes, max, n),
        zip_listing(bytes) == Ok::<nat, Seq<char>>(0) ==> decompressed(bytes, max) == Err::<
            Seq<u8>,
            DecompressFault,
        >(DecompressFault::EmptyArchive),
{
}

/// What an operator reads says what is wrong with an archive, and the ceiling where it was crossed.
pub proof fn law_decompression_errors_say_what_is_wrong(
    e: DecompressError,
    m: String,
    limit_bytes: u64,
)
    ensures
        e == DecompressError::OpenArchive(m) ==> e@.text() == "failed to open zip archive: "@ + m@,
        e is EmptyArchive ==> e@.text() == "zip archive contains no files"@,
        e == DecompressError::ReadMember(m) ==> e@.text() == "failed to read zip archive member: "@
            + m@,
        e == (DecompressError::TooLarge { limit_bytes }) ==> e@.text()
            == "decompressed payload exceeds the "@ + text::decimal(limit_bytes as nat)
            + "-byte MAX_DECOMPRESSED_BYTES limit; aborting to avoid a decompression-bomb memory spike"@,
{
}

} // verus!
