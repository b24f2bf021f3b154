//! The directory codec: 32-byte directory records decoded into entries, with
//! long-file-name fragment records merged into the short 8.3 metadata records
//! they precede on disk.

use vstd::prelude::*;

use crate::bytes::le16;
use crate::bytes::le16_at;
use crate::bytes::le32;
use crate::bytes::le32_at;
use crate::text::char_of_unit;
use crate::text::chars_to_string;
use crate::text::unit_char;

verus! {

/// A packed time-of-day field of a directory record.
#[derive(Clone, Copy, Debug, PartialEq, Eq, Structural)]
pub struct Time(pub u16);

/// A packed date field of a directory record.
#[derive(Clone, Copy, Debug, PartialEq, Eq, Structural)]
pub struct Date(pub u16);

impl Time {
    /// The hour part of the packed field.
    pub fn hour(&self) -> (r: u8)
        ensures
            r == (self.0 >> 10) & 0x3F,
    {
        let v = self.0;
        proof {
            assert(((v >> 10) & 0x3F) < 256) by (bit_vector);
        }
        ((v >> 10) & 0x3F) as u8
    }

    /// The minute part of the packed field.
    pub fn minute(&self) -> (r: u8)
        ensures
            r == (self.0 >> 4) & 0x0F,
    {
        let v = self.0;
        proof {
            assert(((v >> 4) & 0x0F) < 256) by (bit_vector);
        }
        ((v >> 4) & 0x0F) as u8
    }

    /// The two-second count of the packed field.
    pub fn second(&self) -> (r: u8)
        ensures
            r == ((self.0 & 0x0F) as u8) * 2,
    {
        let v = self.0;
        proof {
            assert((v & 0x0F) < 16) by (bit_vector);
        }
        (v & 0x0F) as u8 * 2
    }
}

impl Date {
    /// The year of the packed field, counted from 1980.
    pub fn year(&self) -> (r: u16)
        ensures
            r == ((self.0 >> 8) & 0xFF) + 1980,
    {
        let v = self.0;
        proof {
            assert(((v >> 8) & 0xFF) <= 0xFF) by (bit_vector);
        }
        ((v >> 8) & 0xFF) + 1980
    }

    /// The month part of the packed field.
    pub fn month(&self) -> (r: u8)
        ensures
            r == (self.0 >> 4) & 0x0F,
    {
        let v = self.0;
        proof {
            assert(((v >> 4) & 0x0F) < 256) by (bit_vector);
        }
        ((v >> 4) & 0x0F) as u8
    }

    /// The day part of the packed field.
    pub fn day(&self) -> (r: u8)
        ensures
            r == self.0 & 0x0F,
    {
        let v = self.0;
        proof {
            assert((v & 0x0F) < 256) by (bit_vector);
        }
        (v & 0x0F) as u8
    }
}

/// The short (8.3) metadata record of a directory entry.
#[derive(Clone, Copy, Debug)]
pub struct DirectoryEntryMetadata {
    /// The space-padded base name.
    pub name: [u8; 8],
    /// The space-padded extension.
    pub extension: [u8; 3],
    /// Attribute bits.
    pub attributes: u8,
    /// Creation time, hundredths of a second.
    pub creation_time_cs: u8,
    /// Creation time of day.
    pub creation_time: Time,
    /// Creation date.
    pub creation_date: Date,
    /// Date of last access.
    pub accessed_date: Date,
    /// High half of the entry's first cluster number.
    pub first_cluster_high: u16,
    /// Time of day of the last modification.
    pub modified_time: Time,
    /// Date of the last modification.
    pub modified_date: Date,
    /// Low half of the entry's first cluster number.
    pub first_cluster_low: u16,
    /// The file's size in bytes.
    pub file_size: u32,
}

impl DirectoryEntryMetadata {
    /// Attribute bit: read-only.
    pub const ATTRIBUTE_READ_ONLY: u8 = 0x01;

    /// Attribute bit: hidden.
    pub const ATTRIBUTE_HIDDEN: u8 = 0x02;

    /// Attribute bit: system.
    pub const ATTRIBUTE_SYSTEM: u8 = 0x04;

    /// Attribute bit: volume label.
    pub const ATTRIBUTE_VOLUME_ID: u8 = 0x08;

    /// Attribute bit: directory.
    pub const ATTRIBUTE_DIRECTORY: u8 = 0x10;

    /// Attribute bit: archive.
    pub const ATTRIBUTE_ARCHIVE: u8 = 0x20;

    /// Attribute value marking a long-file-name fragment record.
    pub const ATTRIBUTE_LFN: u8 = 0x0F;

    /// The first cluster of the entry's data, joined from its two halves.
    pub fn first_cluster(&self) -> (r: u32)
        ensures
            r == spec_first_cluster(*self),
    {
        (self.first_cluster_high as u32) << 16 | (self.first_cluster_low as u32)
    }
}

/// The first cluster a metadata record points at.
pub open spec fn spec_first_cluster(m: DirectoryEntryMetadata) -> u32 {
    (m.first_cluster_high as u32) << 16 | (m.first_cluster_low as u32)
}

/// A long-file-name fragment record: 13 UTF-16 code units of the name, in
/// three segments, with ordering and checksum bytes.
#[derive(Clone, Copy, Debug)]
pub struct DirectoryEntryLongFileName {
    /// The fragment's position in the name, counted from 1, with bit 0x40
    /// marking the last fragment.
    pub order: u8,
    /// The first five code units of the fragment.
    pub name_high: [u16; 5],
    /// Checksum of the paired short name.
    pub checksum: u8,
    /// The middle six code units of the fragment.
    pub name_mid: [u16; 6],
    /// The last two code units of the fragment.
    pub name_low: [u16; 2],
}

/// The 13 code units a fragment record carries, in name order.
pub open spec fn lfn_units(f: DirectoryEntryLongFileName) -> Seq<u16> {
    f.name_high@ + f.name_mid@ + f.name_low@
}

/// The code units of a whole fragment list, in list order.
pub open spec fn units_of(fs: Seq<DirectoryEntryLongFileName>) -> Seq<u16>
    decreases fs.len(),
{
    if fs.len() == 0 {
        Seq::empty()
    } else {
        lfn_units(fs[0]) + units_of(fs.skip(1))
    }
}

/// Index of the first null code unit, or the length if none occurs.
pub open spec fn nul_pos(u: Seq<u16>) -> int
    decreases u.len(),
{
    if u.len() == 0 {
        0
    } else if u[0] == 0 {
        0
    } else {
        1 + nul_pos(u.skip(1))
    }
}

/// `i` is where the first null stands (or the end): then `nul_pos` is `i`.
proof fn lemma_nul_pos_at(u: Seq<u16>, i: int)
    requires
        0 <= i <= u.len(),
        forall|j: int| 0 <= j < i ==> u[j] != 0,
        i == u.len() || u[i] == 0,
    ensures
        nul_pos(u) == i,
    decreases i,
{
    if u.len() == 0 {
    } else if u[0] == 0 {
    } else {
        lemma_nul_pos_at(u.skip(1), i - 1);
    }
}

/// The characters of a long name: the code units up to the first null, each
/// decoded to its character.
pub open spec fn long_chars(u: Seq<u16>) -> Seq<char> {
    u.take(nul_pos(u)).map_values(|x: u16| char_of_unit(x))
}

/// A byte sequence with leading spaces removed.
pub open spec fn trim_front(s: Seq<u8>) -> Seq<u8>
    decreases s.len(),
{
    if s.len() > 0 && s[0] == 0x20 {
        trim_front(s.skip(1))
    } else {
        s
    }
}

/// A byte sequence with trailing spaces removed.
pub open spec fn trim_back(s: Seq<u8>) -> Seq<u8>
    decreases s.len(),
{
    if s.len() > 0 && s[s.len() - 1] == 0x20 {
        trim_back(s.take(s.len() - 1))
    } else {
        s
    }
}

/// A byte sequence with spaces removed at both ends.
pub open spec fn trim_spaces(s: Seq<u8>) -> Seq<u8> {
    trim_back(trim_front(s))
}

/// `a` is the first index past the leading spaces and `b` the first trailing
/// space: then the trimmed sequence is exactly `s[a .. b]`.
proof fn lemma_trim_at(s: Seq<u8>, a: int, b: int)
    requires
        0 <= a <= b <= s.len(),
        forall|j: int| 0 <= j < a ==> s[j] == 0x20,
        forall|j: int| b <= j < s.len() ==> s[j] == 0x20,
        a < b ==> s[a] != 0x20,
        a < b ==> s[b - 1] != 0x20,
    ensures
        trim_spaces(s) == s.subrange(a, b),
    decreases s.len(),
{
    if a > 0 {
        assert(s.len() > 0 && s[0] == 0x20);
        lemma_trim_at(s.skip(1), a - 1, b - 1);
        assert(s.skip(1).subrange(a - 1, b - 1) =~= s.subrange(a, b));
    } else if a == b {
        if s.len() == 0 {
            assert(s.subrange(0, 0) =~= s);
        } else {
            assert(s[0] == 0x20);
            lemma_trim_at(s.skip(1), 0, 0);
            assert(trim_front(s) == trim_front(s.skip(1)));
            assert(s.skip(1).subrange(0, 0) =~= s.subrange(0, 0));
        }
    } else {
        assert(s[a] != 0x20);
        assert(trim_front(s) == s);
        lemma_trim_back_at(s, b);
    }
}

/// `b` is the first trailing space of `s`: then `trim_back(s)` is `s[0 .. b]`.
proof fn lemma_trim_back_at(s: Seq<u8>, b: int)
    requires
        0 <= b <= s.len(),
        forall|j: int| b <= j < s.len() ==> s[j] == 0x20,
        b > 0 ==> s[b - 1] != 0x20,
    ensures
        trim_back(s) == s.subrange(0, b),
    decreases s.len(),
{
    if b < s.len() {
        assert(s.len() > 0 && s[s.len() - 1] == 0x20);
        lemma_trim_back_at(s.take(s.len() - 1), b);
        assert(s.take(s.len() - 1).subrange(0, b) =~= s.subrange(0, b));
    } else {
        if s.len() > 0 {
            assert(s[s.len() - 1] != 0x20);
        }
        assert(s.subrange(0, s.len() as int) =~= s);
    }
}

/// A byte of an 8.3 name, upper-cased if it is an ASCII letter, as a
/// character.
pub open spec fn short_char(b: u8) -> char {
    if 97 <= b <= 122 {
        char_of_unit((b - 32) as u16)
    } else {
        char_of_unit(b as u16)
    }
}

/// The characters synthesized from 8.3 name and extension fields: both
/// trimmed of padding spaces and upper-cased, joined with a dot unless the
/// extension field is all spaces.
pub open spec fn short_chars(name: Seq<u8>, ext: Seq<u8>) -> Seq<char> {
    let base = trim_spaces(name).map_values(|b: u8| short_char(b));
    if ext == seq![0x20u8, 0x20u8, 0x20u8] {
        base
    } else {
        base + seq!['.'] + trim_spaces(ext).map_values(|b: u8| short_char(b))
    }
}

/// A decoded directory entry: the long-name fragments that preceded the
/// metadata record, in logical (first-fragment-first) order, and the 8.3
/// metadata record itself.
#[derive(Clone, Debug)]
pub struct DirectoryEntry {
    /// Long-file-name fragments, first fragment first.
    pub long_name: Vec<DirectoryEntryLongFileName>,
    /// The short metadata record.
    pub metadata: DirectoryEntryMetadata,
}

/// The name an entry presents: the long name when fragments are present
/// (case-preserving), otherwise the upper-cased `NAME.EXT` synthesis from the
/// 8.3 fields.
pub open spec fn spec_name(e: DirectoryEntry) -> Seq<char> {
    if e.long_name@.len() == 0 {
        short_chars(e.metadata.name@, e.metadata.extension@)
    } else {
        long_chars(units_of(e.long_name@))
    }
}

/// Whether an entry is a directory, by its attribute bitmask.
pub open spec fn spec_is_directory(e: DirectoryEntry) -> bool {
    e.metadata.attributes & 0x10 != 0
}

impl DirectoryEntry {
    /// The entry's name, as [`spec_name`] describes it.
    pub fn name(&self) -> (r: String)
        ensures
            r@ == spec_name(*self),
    {
        if self.long_name.len() == 0 {
            self.short_name()
        } else {
            self.long_name_string()
        }
    }

    /// Whether the entry is a file (not a directory).
    pub fn is_file(&self) -> (r: bool)
        ensures
            r == !spec_is_directory(*self),
    {
        !self.is_directory()
    }

    /// Whether the entry is a directory.
    pub fn is_directory(&self) -> (r: bool)
        ensures
            r == spec_is_directory(*self),
    {
        self.metadata.attributes & DirectoryEntryMetadata::ATTRIBUTE_DIRECTORY != 0
    }

    /// Synthesizes the upper-cased `NAME.EXT` form from the 8.3 fields.
    fn short_name(&self) -> (r: String)
        ensures
            r@ == short_chars(self.metadata.name@, self.metadata.extension@),
    {
        let m = &self.metadata;
        let mut chars: Vec<char> = Vec::new();
        push_trimmed(&mut chars, &m.name, 8);
        proof {
            assert(m.name@.len() == 8);
            assert(chars@ =~= trim_spaces(m.name@).map_values(|b: u8| short_char(b)));
        }
        let ext_all_spaces: bool = m.extension[0] == 0x20 && m.extension[1] == 0x20
            && m.extension[2] == 0x20;
        proof {
            if ext_all_spaces {
                assert(m.extension@ =~= seq![0x20u8, 0x20u8, 0x20u8]);
            } else {
                if m.extension@ == seq![0x20u8, 0x20u8, 0x20u8] {
                    assert(m.extension@[0] == 0x20 && m.extension@[1] == 0x20 && m.extension@[2]
                        == 0x20);
                }
            }
        }
        if !ext_all_spaces {
            chars.push('.');
            push_trimmed(&mut chars, &m.extension, 3);
            proof {
                assert(m.extension@.len() == 3);
                assert(chars@ =~= trim_spaces(m.name@).map_values(|b: u8| short_char(b)) + seq![
                    '.',
                ] + trim_spaces(m.extension@).map_values(|b: u8| short_char(b)));
            }
        }
        chars_to_string(&chars)
    }

    /// Reconstructs the long name from the fragments: all code units in
    /// fragment order, cut at the first null, decoded to characters.
    fn long_name_string(&self) -> (r: String)
        ensures
            r@ == long_chars(units_of(self.long_name@)),
    {
        let units = collect_units(&self.long_name);
        let mut chars: Vec<char> = Vec::new();
        let mut i: usize = 0;
        while i < units.len() && units[i] != 0
            invariant
                0 <= i <= units@.len(),
                forall|j: int| 0 <= j < i ==> units@[j] != 0,
                chars@ == units@.take(i as int).map_values(|x: u16| char_of_unit(x)),
            decreases units@.len() - i,
        {
            chars.push(unit_char(units[i]));
            proof {
                assert(chars@ =~= units@.take(i + 1).map_values(|x: u16| char_of_unit(x)));
            }
            i = i + 1;
        }
        proof {
            lemma_nul_pos_at(units@, i as int);
        }
        chars_to_string(&chars)
    }
}

/// Appends the trimmed, upper-cased characters of a space-padded field of
/// `n` bytes.
fn push_trimmed(chars: &mut Vec<char>, field: &[u8], n: usize)
    requires
        field@.len() == n,
    ensures
        final(chars)@ == old(chars)@ + trim_spaces(field@).map_values(|b: u8| short_char(b)),
{
    let mut a: usize = 0;
    while a < n && field[a] == 0x20
        invariant
            0 <= a <= n,
            field@.len() == n,
            forall|j: int| 0 <= j < a ==> field@[j] == 0x20,
        decreases n - a,
    {
        a = a + 1;
    }
    let mut b: usize = n;
    if a == n {
        b = a;
    } else {
        while b > a && field[b - 1] == 0x20
            invariant
                a <= b <= n,
                field@.len() == n,
                a < n && field@[a as int] != 0x20,
                forall|j: int| b <= j < n ==> field@[j] == 0x20,
            decreases b,
        {
            b = b - 1;
        }
        proof {
            assert(field@[a as int] != 0x20);
            assert(b > a);
        }
    }
    proof {
        lemma_trim_at(field@, a as int, b as int);
    }
    let ghost start = chars@;
    let mut i: usize = a;
    while i < b
        invariant
            a <= i <= b <= n,
            field@.len() == n,
            chars@ == start + field@.subrange(a as int, i as int).map_values(
                |x: u8| short_char(x),
            ),
        decreases b - i,
    {
        let by = field[i];
        let up: u8 = if 97 <= by && by <= 122 {
            by - 32
        } else {
            by
        };
        chars.push(unit_char(up as u16));
        proof {
            assert(chars@ =~= start + field@.subrange(a as int, i + 1).map_values(
                |x: u8| short_char(x),
            ));
        }
        i = i + 1;
    }
}

/// Concatenates every fragment's 13 code units, in fragment order.
fn collect_units(fs: &Vec<DirectoryEntryLongFileName>) -> (r: Vec<u16>)
    ensures
        r@ == units_of(fs@),
{
    let mut r: Vec<u16> = Vec::new();
    let mut i: usize = 0;
    proof {
        assert(fs@.skip(0) =~= fs@);
        assert(Seq::<u16>::empty() + units_of(fs@) =~= units_of(fs@));
    }
    while i < fs.len()
        invariant
            0 <= i <= fs@.len(),
            units_of(fs@) == r@ + units_of(fs@.skip(i as int)),
        decreases fs@.len() - i,
    {
        let f = &fs[i];
        let mut tmp: Vec<u16> = Vec::new();
        tmp.push(f.name_high[0]);
        tmp.push(f.name_high[1]);
        tmp.push(f.name_high[2]);
        tmp.push(f.name_high[3]);
        tmp.push(f.name_high[4]);
        tmp.push(f.name_mid[0]);
        tmp.push(f.name_mid[1]);
        tmp.push(f.name_mid[2]);
        tmp.push(f.name_mid[3]);
        tmp.push(f.name_mid[4]);
        tmp.push(f.name_mid[5]);
        tmp.push(f.name_low[0]);
        tmp.push(f.name_low[1]);
        proof {
            assert(tmp@ =~= lfn_units(fs@[i as int]));
        }
        let ghost r_before = r@;
        r.append(&mut tmp);
        proof {
            assert(fs@.skip(i as int).skip(1) =~= fs@.skip(i + 1));
            assert(units_of(fs@.skip(i as int)) == lfn_units(fs@[i as int]) + units_of(
                fs@.skip(i + 1),
            ));
            assert(r@ + units_of(fs@.skip(i + 1)) =~= r_before + units_of(fs@.skip(i as int)));
        }
        i = i + 1;
    }
    proof {
        assert(units_of(fs@.skip(fs@.len() as int)) =~= Seq::<u16>::empty());
        assert(r@ + Seq::<u16>::empty() =~= r@);
    }
    r
}

/// What a directory entry means to the path resolver: its name, whether it is
/// a directory, its first cluster, and its file size.
pub type EntryModel = (Seq<char>, bool, u32, u32);

/// The model of one decoded entry.
pub open spec fn entry_spec_model(e: DirectoryEntry) -> EntryModel {
    (spec_name(e), spec_is_directory(e), spec_first_cluster(e.metadata), e.metadata.file_size)
}

/// The models of a sequence of decoded entries.
pub open spec fn models_of(es: Seq<DirectoryEntry>) -> Seq<EntryModel> {
    es.map_values(|e: DirectoryEntry| entry_spec_model(e))
}

/// The 13 code units of the long-file-name fragment record at offset `off`.
pub open spec fn lfn_units_at(s: Seq<u8>, off: int) -> Seq<u16> {
    seq![
        le16_at(s, off + 1),
        le16_at(s, off + 3),
        le16_at(s, off + 5),
        le16_at(s, off + 7),
        le16_at(s, off + 9),
        le16_at(s, off + 14),
        le16_at(s, off + 16),
        le16_at(s, off + 18),
        le16_at(s, off + 20),
        le16_at(s, off + 22),
        le16_at(s, off + 24),
        le16_at(s, off + 28),
        le16_at(s, off + 30),
    ]
}

/// The model of the metadata record at offset `off`, paired with the pending
/// long-name code units collected before it.
pub open spec fn record_model(s: Seq<u8>, off: int, pending: Seq<u16>) -> EntryModel {
    (
        if pending.len() == 0 {
            short_chars(s.subrange(off, off + 8), s.subrange(off + 8, off + 11))
        } else {
            long_chars(pending)
        },
        s[off + 11] & 0x10 != 0,
        (le16_at(s, off + 20) as u32) << 16 | (le16_at(s, off + 26) as u32),
        le32_at(s, off + 28),
    )
}

/// The models of the entries a directory byte buffer holds, scanning 32-byte
/// records from record `i` on with the long-name units `pending` collected so
/// far: a first byte of zero ends the directory, `0xE5` is skipped, a
/// long-name record prepends its units, and any other record is emitted with
/// the pending units as one entry.
pub open spec fn dir_models(data: Seq<u8>, i: int, pending: Seq<u16>) -> Seq<EntryModel>
    decreases data.len() / 32 - i,
{
    let n = data.len() as int / 32;
    if i < 0 || i >= n {
        Seq::empty()
    } else if data[32 * i] == 0 {
        Seq::empty()
    } else if data[32 * i] == 0xE5 {
        dir_models(data, i + 1, pending)
    } else if data[32 * i + 11] == 0x0F {
        dir_models(data, i + 1, lfn_units_at(data, 32 * i) + pending)
    } else {
        seq![record_model(data, 32 * i, pending)] + dir_models(data, i + 1, Seq::empty())
    }
}

/// Decodes the long-file-name fragment record at offset `off` of `buf`.
fn decode_lfn(buf: &Vec<u8>, off: usize) -> (f: DirectoryEntryLongFileName)
    requires
        off + 32 <= buf.len(),
    ensures
        lfn_units(f) == lfn_units_at(buf@, off as int),
        f.order == buf@[off as int],
        f.checksum == buf@[off as int + 13],
{
    let f = DirectoryEntryLongFileName {
        order: buf[off],
        name_high: [
            le16(buf, off + 1),
            le16(buf, off + 3),
            le16(buf, off + 5),
            le16(buf, off + 7),
            le16(buf, off + 9),
        ],
        checksum: buf[off + 13],
        name_mid: [
            le16(buf, off + 14),
            le16(buf, off + 16),
            le16(buf, off + 18),
            le16(buf, off + 20),
            le16(buf, off + 22),
            le16(buf, off + 24),
        ],
        name_low: [le16(buf, off + 28), le16(buf, off + 30)],
    };
    proof {
        assert(lfn_units(f) =~= lfn_units_at(buf@, off as int));
    }
    f
}

/// Decodes the metadata record at offset `off` of `buf`.
fn decode_metadata(buf: &Vec<u8>, off: usize) -> (m: DirectoryEntryMetadata)
    requires
        off + 32 <= buf.len(),
    ensures
        m.name@ == buf@.subrange(off as int, off as int + 8),
        m.extension@ == buf@.subrange(off as int + 8, off as int + 11),
        m.attributes == buf@[off as int + 11],
        m.creation_time_cs == buf@[off as int + 13],
        m.creation_time == Time(le16_at(buf@, off as int + 14)),
        m.creation_date == Date(le16_at(buf@, off as int + 16)),
        m.accessed_date == Date(le16_at(buf@, off as int + 18)),
        m.first_cluster_high == le16_at(buf@, off as int + 20),
        m.modified_time == Time(le16_at(buf@, off as int + 22)),
        m.modified_date == Date(le16_at(buf@, off as int + 24)),
        m.first_cluster_low == le16_at(buf@, off as int + 26),
        m.file_size == le32_at(buf@, off as int + 28),
{
    let m = DirectoryEntryMetadata {
        name: [
            buf[off],
            buf[off + 1],
            buf[off + 2],
            buf[off + 3],
            buf[off + 4],
            buf[off + 5],
            buf[off + 6],
            buf[off + 7],
        ],
        extension: [buf[off + 8], buf[off + 9], buf[off + 10]],
        attributes: buf[off + 11],
        creation_time_cs: buf[off + 13],
        creation_time: Time(le16(buf, off + 14)),
        creation_date: Date(le16(buf, off + 16)),
        accessed_date: Date(le16(buf, off + 18)),
        first_cluster_high: le16(buf, off + 20),
        modified_time: Time(le16(buf, off + 22)),
        modified_date: Date(le16(buf, off + 24)),
        first_cluster_low: le16(buf, off + 26),
        file_size: le32(buf, off + 28),
    };
    proof {
        assert(m.name@ =~= buf@.subrange(off as int, off as int + 8));
        assert(m.extension@ =~= buf@.subrange(off as int + 8, off as int + 11));
    }
    m
}

/// Decodes a directory's raw bytes into entries: 32-byte records scanned in
/// order, long-name fragments collected (in reverse disk order) and attached
/// to the next metadata record.
pub fn decode_directory(data: &Vec<u8>) -> (r: Vec<DirectoryEntry>)
    ensures
        models_of(r@) == dir_models(data@, 0, Seq::empty()),
{
    let n = data.len() / 32;
    let mut ret: Vec<DirectoryEntry> = Vec::new();
    let mut lfn_buffer: Vec<DirectoryEntryLongFileName> = Vec::new();
    let mut i: usize = 0;
    proof {
        vstd::std_specs::vec::axiom_spec_len(data);
        vstd::arithmetic::div_mod::lemma_fundamental_div_mod(data@.len() as int, 32);
        vstd::arithmetic::div_mod::lemma_mod_bound(data@.len() as int, 32);
        assert(models_of(ret@) =~= Seq::<EntryModel>::empty());
        assert(Seq::<EntryModel>::empty() + dir_models(data@, 0, Seq::empty()) =~= dir_models(
            data@,
            0,
            Seq::empty(),
        ));
    }
    while i < n
        invariant
            n == data@.len() as int / 32,
            32 * n <= data@.len(),
            data@.len() <= usize::MAX,
            i <= n,
            (units_of(lfn_buffer@) == Seq::<u16>::empty() <==> lfn_buffer@.len() == 0),
            dir_models(data@, 0, Seq::empty()) == models_of(ret@) + dir_models(
                data@,
                i as int,
                units_of(lfn_buffer@),
            ),
        decreases n - i,
    {
        let off = i * 32;
        let first = data[off];
        if first == 0x00 {
            proof {
                assert(dir_models(data@, i as int, units_of(lfn_buffer@))
                    =~= Seq::<EntryModel>::empty());
                assert(models_of(ret@) + Seq::<EntryModel>::empty() =~= models_of(ret@));
            }
            return ret;
        }
        if first == 0xE5 {
            // Unused slot: skipped.
        } else if data[off + 11] == 0x0F {
            let f = decode_lfn(data, off);
            let ghost old_buffer = lfn_buffer@;
            lfn_buffer.insert(0, f);
            proof {
                assert(lfn_buffer@.skip(1) =~= old_buffer);
                assert(lfn_buffer@[0] == f);
                assert(units_of(lfn_buffer@) == lfn_units(f) + units_of(old_buffer));
                assert(lfn_units(f).len() == 13);
            }
        } else {
            let m = decode_metadata(data, off);
            let fragments = lfn_buffer;
            lfn_buffer = Vec::new();
            let ghost pending = units_of(fragments@);
            let e = DirectoryEntry { long_name: fragments, metadata: m };
            proof {
                if e.long_name@.len() > 0 {
                    assert(units_of(e.long_name@) == lfn_units(e.long_name@[0]) + units_of(
                        e.long_name@.skip(1),
                    ));
                    assert(lfn_units(e.long_name@[0]).len() == 13);
                }
                assert(entry_spec_model(e) == record_model(data@, off as int, pending));
            }
            let ghost old_ret = ret@;
            ret.push(e);
            proof {
                assert(models_of(ret@) =~= models_of(old_ret).push(entry_spec_model(e)));
                assert(dir_models(data@, i as int, pending) == seq![
                    record_model(data@, 32 * (i as int), pending),
                ] + dir_models(data@, i as int + 1, Seq::empty()));
                assert(models_of(old_ret) + dir_models(data@, i as int, pending) =~= (models_of(
                    ret@,
                ) + dir_models(data@, i as int + 1, Seq::<u16>::empty())));
                assert(units_of(lfn_buffer@) =~= Seq::<u16>::empty());
            }
        }
        i = i + 1;
    }
    proof {
        assert(dir_models(data@, n as int, units_of(lfn_buffer@)) =~= Seq::<EntryModel>::empty());
        assert(models_of(ret@) + Seq::<EntryModel>::empty() =~= models_of(ret@));
    }
    ret
}

} // verus!
