//! D64 disk-image parsing (1541, 35 tracks, 683 sectors, no error info).
//!
//! Reads the directory and extracts a file's bytes by following its sector
//! chain. This is image parsing only: it does not emulate the 1541 drive or
//! the serial bus.
use vstd::prelude::*;
use vstd::set_lib::{set_int_range, lemma_int_range, lemma_len_subset};
use vstd::arithmetic::div_mod::{lemma_add_mod_noop, lemma_mul_mod_noop_left};

verus! {

/// Size of a 35-track image without error bytes.
pub const DISK_SIZE_35: usize = 174_848;
/// The directory track.
pub const DIR_TRACK: u8 = 18;

/// Calls the standard library's `String::push`; its contract claims that the
/// string afterwards holds its old characters followed by `c`.
#[verifier::external_body]
fn string_push(s: &mut String, c: char)
    ensures
        final(s)@ == old(s)@.push(c),
{
    s.push(c);
}

// ---------------------------------------------------------------------------
// Geometry
// ---------------------------------------------------------------------------

/// Number of sectors on a (1-based) track: 21 in zone 1 (tracks 1-17), 19
/// (18-24), 18 (25-30), and 17 from track 31 on.
pub open spec fn spec_sectors_per_track(track: u8) -> nat {
    if 1 <= track <= 17 {
        21
    } else if 18 <= track <= 24 {
        19
    } else if 25 <= track <= 30 {
        18
    } else {
        17
    }
}

/// Sectors on all tracks before track `t` (tracks are numbered from 1).
pub open spec fn track_base(t: int) -> nat
    decreases t,
{
    if t <= 1 {
        0
    } else {
        track_base(t - 1) + spec_sectors_per_track((t - 1) as u8)
    }
}

/// Byte offset of track/sector `(t, s)` within the image.
pub open spec fn spec_sector_offset(t: u8, s: u8) -> int {
    (track_base(t as int) + s) * 256
}

proof fn lemma_track_base_bound(t: int)
    requires
        0 <= t <= 256,
    ensures
        track_base(t) <= 21 * t,
    decreases t,
{
    if t > 1 {
        lemma_track_base_bound(t - 1);
    }
}

/// Every sector offset lies below 2 MB.
pub proof fn lemma_sector_offset_bound(t: u8, s: u8)
    ensures
        0 <= spec_sector_offset(t, s) <= (21 * 256 + 255) * 256,
{
    lemma_track_base_bound(t as int);
}

impl D64 {
    /// Sectors per track.
    pub fn sectors_per_track(track: u8) -> (n: usize)
        ensures
            n == spec_sectors_per_track(track),
    {
        if 1 <= track && track <= 17 {
            21
        } else if 18 <= track && track <= 24 {
            19
        } else if 25 <= track && track <= 30 {
            18
        } else {
            17
        }
    }

    /// Byte offset of track/sector `(t, s)` within the image (1-based track).
    pub fn sector_offset(t: u8, s: u8) -> (o: usize)
        ensures
            o == spec_sector_offset(t, s),
    {
        let mut base: usize = 0;
        let mut tr: u8 = 1;
        while tr < t
            invariant
                1 <= tr,
                t >= 1 ==> tr <= t,
                t == 0 ==> tr == 1,
                base == track_base(tr as int),
                base <= 21 * tr,
            decreases t - tr,
        {
            proof {
                lemma_track_base_bound(tr as int);
            }
            base = base + Self::sectors_per_track(tr);
            tr = tr + 1;
        }
        proof {
            if t == 0 {
                assert(track_base(0) == 0);
                assert(track_base(1) == 0);
            } else {
                assert(tr == t);
            }
        }
        (base + s as usize) * 256
    }
}

// ---------------------------------------------------------------------------
// Directory entries
// ---------------------------------------------------------------------------

#[derive(Debug, Clone)]
pub struct DirEntry {
    /// File name as raw PETSCII bytes with $A0 padding stripped.
    pub name: Vec<u8>,
    /// File type low nibble (2 = PRG).
    pub file_type: u8,
    /// First track/sector of the file's data chain.
    pub track: u8,
    pub sector: u8,
    /// Size in blocks (sectors).
    pub blocks: u16,
}

/// A directory entry as plain values: name, type, track, sector, blocks.
pub type EntryView = (Seq<u8>, u8, u8, u8, u16);

impl View for DirEntry {
    type V = EntryView;

    open spec fn view(&self) -> EntryView {
        (self.name@, self.file_type, self.track, self.sector, self.blocks)
    }
}

/// PETSCII byte shown as ASCII: printable ASCII as itself, anything else '?'.
pub open spec fn ascii_char(b: u8) -> char {
    if 0x20 <= b < 0x7F {
        b as char
    } else {
        '?'
    }
}

pub open spec fn ascii_name(name: Seq<u8>) -> Seq<char> {
    name.map_values(|b: u8| ascii_char(b))
}

fn ascii_char_exec(b: u8) -> (c: char)
    ensures
        c == ascii_char(b),
{
    if 0x20 <= b && b < 0x7F {
        b as char
    } else {
        '?'
    }
}

impl DirEntry {
    /// File name as an ASCII string (PETSCII letters map closely enough).
    pub fn name_ascii(&self) -> (s: String)
        ensures
            s@ == ascii_name(self.name@),
    {
        let mut s = String::new();
        let mut i: usize = 0;
        while i < self.name.len()
            invariant
                i <= self.name@.len(),
                s@ == ascii_name(self.name@.take(i as int)),
            decreases self.name@.len() - i,
        {
            let c = ascii_char_exec(self.name[i]);
            string_push(&mut s, c);
            i = i + 1;
            assert(ascii_name(self.name@.take(i as int)) =~= ascii_name(self.name@.take(i - 1)).push(c));
        }
        assert(self.name@.take(i as int) =~= self.name@);
        s
    }

    /// True for a PRG file (type low nibble 2).
    pub fn is_prg(&self) -> (r: bool)
        ensures
            r == (self.file_type % 16 == 2),
    {
        proof {
            crate::bits::lemma_byte_masks();
        }
        self.file_type & 0x0F == 2
    }
}

/// `s` without its trailing $A0 padding bytes.
pub open spec fn strip_padding(s: Seq<u8>) -> Seq<u8>
    decreases s.len(),
{
    if s.len() > 0 && s.last() == 0xA0 {
        strip_padding(s.drop_last())
    } else {
        s
    }
}

/// A slot is empty or scratched when its type is 0 and it has no start track.
pub open spec fn slot_unused(data: Seq<u8>, eo: int) -> bool {
    data[eo + 2] % 16 == 0 && data[eo + 3] == 0
}

/// The entry in the 32-byte slot at `eo`.
pub open spec fn slot_entry(data: Seq<u8>, eo: int) -> EntryView {
    (
        strip_padding(data.subrange(eo + 5, eo + 21)),
        data[eo + 2],
        data[eo + 3],
        data[eo + 4],
        (data[eo + 30] + data[eo + 31] * 256) as u16,
    )
}

/// The used entries among the first `n` slots of the directory sector at `o`.
pub open spec fn sector_entries(data: Seq<u8>, o: int, n: int) -> Seq<EntryView>
    decreases n,
{
    if n <= 0 {
        Seq::empty()
    } else {
        let prev = sector_entries(data, o, n - 1);
        if slot_unused(data, o + (n - 1) * 32) {
            prev
        } else {
            prev.push(slot_entry(data, o + (n - 1) * 32))
        }
    }
}

/// The bytes of the directory sector at `o` that parsing reads lie inside
/// the image: all of it, except that the last slot's name and size are not
/// read when that slot is unused.
pub open spec fn dir_sector_readable(data: Seq<u8>, o: int) -> bool {
    &&& o + 229 <= data.len()
    &&& (slot_unused(data, o + 7 * 32) || o + 256 <= data.len())
}

/// Key of a track/sector pair in the set of visited sectors.
pub open spec fn ts_key(t: u8, s: u8) -> int {
    t * 256 + s
}

pub open spec fn walk_set_ok(seen: Set<int>) -> bool {
    seen.finite() && seen.subset_of(set_int_range(0, 0x10000))
}

/// The directory entries found by following the chain of directory sectors
/// from `(t, s)`, stopping at track 0 or at a sector already visited; `None`
/// when a sector to be parsed lies outside the image.
pub open spec fn dir_walk(data: Seq<u8>, t: u8, s: u8, seen: Set<int>) -> Option<Seq<EntryView>>
    decreases 0x10000 - seen.len(),
    when walk_set_ok(seen)
{
    if t == 0 || seen.contains(ts_key(t, s)) {
        Some(Seq::empty())
    } else {
        let o = spec_sector_offset(t, s);
        if !dir_sector_readable(data, o) {
            None
        } else {
            proof {
                lemma_walk_step(seen, ts_key(t, s));
            }
            match dir_walk(data, data[o], data[o + 1], seen.insert(ts_key(t, s))) {
                Some(rest) => Some(sector_entries(data, o, 8) + rest),
                None => None,
            }
        }
    }
}

pub proof fn lemma_walk_step(seen: Set<int>, k: int)
    requires
        walk_set_ok(seen),
        0 <= k < 0x10000,
        !seen.contains(k),
    ensures
        walk_set_ok(seen.insert(k)),
        seen.insert(k).len() == seen.len() + 1,
        seen.insert(k).len() <= 0x10000,
{
    lemma_int_range(0, 0x10000);
    lemma_len_subset(seen.insert(k), set_int_range(0, 0x10000));
}

/// The whole directory: the chain starting at track 18, sector 1.
pub open spec fn spec_directory(data: Seq<u8>) -> Option<Seq<EntryView>> {
    dir_walk(data, DIR_TRACK, 1, Set::empty())
}

/// A byte of the disk name as shown: $A0 padding as a space, printable
/// ASCII as itself, anything else as '?'.
pub open spec fn name_char(b: u8) -> char {
    if b == 0xA0 {
        ' '
    } else {
        ascii_char(b)
    }
}

/// `s` without its trailing spaces.
pub open spec fn trim_end_spaces(s: Seq<char>) -> Seq<char>
    decreases s.len(),
{
    if s.len() > 0 && s.last() == ' ' {
        trim_end_spaces(s.drop_last())
    } else {
        s
    }
}

/// `s` without its leading spaces.
pub open spec fn trim_start_spaces(s: Seq<char>) -> Seq<char>
    decreases s.len(),
{
    if s.len() > 0 && s[0] == ' ' {
        trim_start_spaces(s.drop_first())
    } else {
        s
    }
}

/// Offset of the disk name in the BAM (track 18, sector 0, offset $90).
pub open spec fn disk_name_offset() -> int {
    spec_sector_offset(DIR_TRACK, 0) + 0x90
}

/// The 16-byte disk name, shown as characters, with surrounding spaces
/// trimmed. (Printable ASCII holds no whitespace but the space.)
pub open spec fn spec_disk_name(data: Seq<u8>) -> Seq<char> {
    trim_start_spaces(
        trim_end_spaces(
            data.subrange(disk_name_offset(), disk_name_offset() + 16).map_values(|b: u8| name_char(b)),
        ),
    )
}

proof fn lemma_disk_name_offset()
    ensures
        disk_name_offset() == 0x16590,
{
    reveal_with_fuel(track_base, 19);
    assert(track_base(18) == 357);
}

fn name_char_exec(b: u8) -> (c: char)
    ensures
        c == name_char(b),
{
    if b == 0xA0 {
        ' '
    } else {
        ascii_char_exec(b)
    }
}

/// ASCII upper case of a character; other characters are unchanged.
pub open spec fn upper_char(c: char) -> char {
    if 'a' <= c <= 'z' {
        ((c as u32) - 32) as char
    } else {
        c
    }
}

/// ASCII upper case of a string.
pub open spec fn upper(s: Seq<char>) -> Seq<char> {
    s.map_values(|c: char| upper_char(c))
}

/// Whether a directory entry answers to `name`: `"*"` asks for any PRG,
/// any other name is compared with the entry's ASCII name, ignoring ASCII
/// case.
pub open spec fn entry_matches(e: EntryView, name: Seq<char>) -> bool {
    if name == seq!['*'] {
        e.1 % 16 == 2
    } else {
        upper(ascii_name(e.0)) == upper(name)
    }
}

/// The first entry of `dir` that answers to `name`.
pub open spec fn first_match(dir: Seq<EntryView>, name: Seq<char>) -> Option<EntryView>
    decreases dir.len(),
{
    if dir.len() == 0 {
        None
    } else if entry_matches(dir[0], name) {
        Some(dir[0])
    } else {
        first_match(dir.drop_first(), name)
    }
}

fn upper_char_exec(c: char) -> (u: char)
    ensures
        u == upper_char(c),
{
    if 'a' <= c && c <= 'z' {
        let b = (c as u32) - 32;
        b as u8 as char
    } else {
        c
    }
}

impl DirEntry {
    /// Whether the upper-cased ASCII name of this entry is `want`.
    fn upper_name_is(&self, want: &Vec<char>) -> (b: bool)
        ensures
            b == (upper(ascii_name(self.name@)) == want@),
    {
        if self.name.len() != want.len() {
            assert(upper(ascii_name(self.name@)).len() != want@.len());
            return false;
        }
        let mut k: usize = 0;
        while k < want.len()
            invariant
                self.name@.len() == want@.len(),
                k <= want@.len(),
                forall|j: int| 0 <= j < k ==> upper(ascii_name(self.name@))[j] == want@[j],
            decreases want@.len() - k,
        {
            let c = upper_char_exec(ascii_char_exec(self.name[k]));
            if c != want[k] {
                assert(upper(ascii_name(self.name@))[k as int] != want@[k as int]);
                return false;
            }
            k = k + 1;
        }
        assert(upper(ascii_name(self.name@)) =~= want@);
        true
    }
}

/// One flag per track/sector pair, none set.
fn no_sector_seen() -> (seen: Vec<bool>)
    ensures
        seen@.len() == 0x10000,
        forall|j: int| 0 <= j < 0x10000 ==> !seen@[j],
{
    let mut seen: Vec<bool> = Vec::new();
    let mut k: usize = 0;
    while k < 0x10000
        invariant
            k <= 0x10000,
            seen@.len() == k,
            forall|j: int| 0 <= j < k ==> !seen@[j],
        decreases 0x10000 - k,
    {
        seen.push(false);
        k = k + 1;
    }
    seen
}

/// Bytes used in the last sector of a chain whose second link byte is `ns`
/// (the offset of the final used byte).
pub open spec fn last_sector_used(ns: u8) -> int {
    if ns >= 1 {
        ns - 1
    } else {
        0
    }
}

/// The bytes of the file whose sector chain starts at `(t, s)`: 254 data
/// bytes from every sector that links on, and the used bytes of the last
/// sector (link track 0). The walk also ends at track 0 or at a sector
/// already visited; `None` when a sector to be read lies outside the image.
pub open spec fn file_walk(data: Seq<u8>, t: u8, s: u8, seen: Set<int>) -> Option<Seq<u8>>
    decreases 0x10000 - seen.len(),
    when walk_set_ok(seen)
{
    if t == 0 || seen.contains(ts_key(t, s)) {
        Some(Seq::empty())
    } else {
        let o = spec_sector_offset(t, s);
        if o + 2 > data.len() {
            None
        } else if data[o] == 0 {
            let used = last_sector_used(data[o + 1]);
            if o + 2 + used <= data.len() {
                Some(data.subrange(o + 2, o + 2 + used))
            } else {
                None
            }
        } else if o + 256 > data.len() {
            None
        } else {
            proof {
                lemma_walk_step(seen, ts_key(t, s));
            }
            match file_walk(data, data[o], data[o + 1], seen.insert(ts_key(t, s))) {
                Some(rest) => Some(data.subrange(o + 2, o + 256) + rest),
                None => None,
            }
        }
    }
}

/// The bytes of the file that a directory entry points to.
pub open spec fn spec_read_file(data: Seq<u8>, e: EntryView) -> Option<Seq<u8>> {
    file_walk(data, e.2, e.3, Set::empty())
}

// ---------------------------------------------------------------------------
// The image
// ---------------------------------------------------------------------------

/// A 35-track disk image.
pub struct D64 {
    data: Vec<u8>,
}

impl View for D64 {
    type V = Seq<u8>;

    /// The bytes of the image.
    closed spec fn view(&self) -> Seq<u8> {
        self.data@
    }
}

impl D64 {
    /// An image holds at least the 683 sectors of a 35-track disk.
    #[verifier::type_invariant]
    spec fn wf(self) -> bool {
        self@.len() >= DISK_SIZE_35
    }

    /// Wrap the bytes of an image file; `None` when it is too small for a
    /// 35-track D64.
    pub fn from_bytes(data: Vec<u8>) -> (r: Option<D64>)
        ensures
            r is Some <==> data@.len() >= DISK_SIZE_35,
            r matches Some(d) ==> d@ == data@,
    {
        if data.len() < DISK_SIZE_35 {
            None
        } else {
            Some(D64 { data })
        }
    }

    /// 16-byte disk name from the BAM (track 18, sector 0, offset $90).
    #[verifier::spinoff_prover]
    pub fn disk_name(&self) -> (name: String)
        ensures
            name@ == spec_disk_name(self@),
    {
        proof {
            use_type_invariant(self);
            lemma_disk_name_offset();
        }
        let o = Self::sector_offset(DIR_TRACK, 0) + 0x90;
        let mut chars: Vec<char> = Vec::new();
        let mut k: usize = 0;
        while k < 16
            invariant
                k <= 16,
                o == disk_name_offset(),
                o + 16 <= self@.len(),
                chars@ == self@.subrange(o as int, o + k).map_values(|b: u8| name_char(b)),
            decreases 16 - k,
        {
            let c = name_char_exec(self.data[o + k]);
            chars.push(c);
            k = k + 1;
            assert(chars@ =~= self@.subrange(o as int, o + k).map_values(|b: u8| name_char(b)));
        }
        let ghost raw = chars@;
        while chars.len() > 0 && chars[chars.len() - 1] == ' '
            invariant
                trim_end_spaces(chars@) == trim_end_spaces(raw),
            decreases chars@.len(),
        {
            let ghost before = chars@;
            chars.pop();
            assert(chars@ =~= before.drop_last());
        }
        let ghost trimmed = chars@;
        assert(trimmed.subrange(0, trimmed.len() as int) =~= trimmed);
        let mut i: usize = 0;
        while i < chars.len() && chars[i] == ' '
            invariant
                chars@ == trimmed,
                i <= chars@.len(),
                trim_start_spaces(chars@.subrange(i as int, chars@.len() as int)) == trim_start_spaces(trimmed),
            decreases chars@.len() - i,
        {
            assert(chars@.subrange(i + 1, chars@.len() as int) =~= chars@.subrange(i as int, chars@.len() as int).drop_first());
            i = i + 1;
        }
        let start = i;
        let mut out = String::new();
        while i < chars.len()
            invariant
                chars@ == trimmed,
                start <= i <= chars@.len(),
                out@ == chars@.subrange(start as int, i as int),
            decreases chars@.len() - i,
        {
            string_push(&mut out, chars[i]);
            i = i + 1;
            assert(out@ =~= chars@.subrange(start as int, i as int));
        }
        assert(out@ =~= chars@.subrange(start as int, chars@.len() as int));
        out
    }

    #[verifier::spinoff_prover]
    fn read_slot(&self, eo: usize) -> (e: DirEntry)
        requires
            eo + 32 <= self@.len(),
        ensures
            e@ == slot_entry(self@, eo as int),
    {
        let n = self.data.len();
        let file_type = self.data[eo + 2];
        let track = self.data[eo + 3];
        let sector = self.data[eo + 4];
        let mut name: Vec<u8> = Vec::new();
        let mut k: usize = 0;
        while k < 16
            invariant
                k <= 16,
                eo + 32 <= self@.len(),
                n == self@.len(),
                name@ == self@.subrange(eo + 5, eo + 5 + k),
            decreases 16 - k,
        {
            name.push(self.data[eo + 5 + k]);
            k = k + 1;
            assert(name@ =~= self@.subrange(eo + 5, eo + 5 + k));
        }
        let ghost full = name@;
        while name.len() > 0 && name[name.len() - 1] == 0xA0
            invariant
                strip_padding(name@) == strip_padding(full),
            decreases name@.len(),
        {
            let ghost before = name@;
            name.pop();
            assert(name@ =~= before.drop_last());
        }
        let blocks = self.data[eo + 30] as u16 + (self.data[eo + 31] as u16) * 256;
        DirEntry { name, file_type, track, sector, blocks }
    }

    /// Walk the directory chain starting at track 18, sector 1; `None` when
    /// a directory sector on the chain lies outside the image.
    #[verifier::spinoff_prover]
    fn walk_directory(&self) -> (r: Option<Vec<DirEntry>>)
        ensures
            r is Some <==> spec_directory(self@) is Some,
            r matches Some(out) ==> out@.map_values(|e: DirEntry| e@) == spec_directory(self@)->0,
    {
        let mut out: Vec<DirEntry> = Vec::new();
        let mut t: u8 = DIR_TRACK;
        let mut s: u8 = 1;
        let mut seen = no_sector_seen();
        let ghost mut seen_set: Set<int> = Set::empty();
        proof {
            assert(seen_set.subset_of(set_int_range(0, 0x10000)));
        }
        while t != 0 && !seen[t as usize * 256 + s as usize]
            invariant
                seen@.len() == 0x10000,
                walk_set_ok(seen_set),
                forall|j: int| 0 <= j < 0x10000 ==> seen@[j] == seen_set.contains(j),
                spec_directory(self@) is Some <==> dir_walk(self@, t, s, seen_set) is Some,
                dir_walk(self@, t, s, seen_set) is Some ==> spec_directory(self@)->0
                    == out@.map_values(|e: DirEntry| e@) + dir_walk(self@, t, s, seen_set)->0,
            decreases 0x10000 - seen_set.len(),
        {
            let key = t as usize * 256 + s as usize;
            proof {
                lemma_walk_step(seen_set, key as int);
            }
            seen.set(key, true);
            let o = Self::sector_offset(t, s);
            proof {
                lemma_sector_offset_bound(t, s);
            }
            let n = self.data.len();
            if !(o + 229 <= n && ((self.data[o + 226] & 0x0F == 0 && self.data[o + 227] == 0) || o + 256 <= n)) {
                proof {
                    let b = self@[o + 226];
                    assert(b & 0x0F == b % 16) by (bit_vector);
                }
                return None;
            }
            proof {
                let b = self@[o + 226];
                assert(b & 0x0F == b % 16) by (bit_vector);
            }
            let ghost here = sector_entries(self@, o as int, 8);
            let ghost before = out@.map_values(|e: DirEntry| e@);
            let nt = self.data[o];
            let ns = self.data[o + 1];
            let mut e: usize = 0;
            while e < 8
                invariant
                    e <= 8,
                    o <= (21 * 256 + 255) * 256,
                    dir_sector_readable(self@, o as int),
                    out@.map_values(|x: DirEntry| x@) == before + sector_entries(self@, o as int, e as int),
                decreases 8 - e,
            {
                let eo = o + e * 32;
                let ghost prev_out = out@;
                let file_type = self.data[eo + 2];
                let track = self.data[eo + 3];
                // Skip scratched/empty slots (type 0 and no start track).
                assert(file_type & 0x0F == file_type % 16) by (bit_vector);
                if file_type & 0x0F == 0 && track == 0 {
                } else {
                    let entry = self.read_slot(eo);
                    out.push(entry);
                    assert(out@.map_values(|x: DirEntry| x@) =~= prev_out.map_values(|x: DirEntry| x@).push(
                        slot_entry(self@, eo as int),
                    ));
                }
                e = e + 1;
                assert(out@.map_values(|x: DirEntry| x@) =~= before + sector_entries(self@, o as int, e as int));
            }
            proof {
                seen_set = seen_set.insert(key as int);
                assert(out@.map_values(|x: DirEntry| x@) == before + here);
            }
            t = nt;
            s = ns;
        }
        proof {
            assert(dir_walk(self@, t, s, seen_set)->0 =~= Seq::<EntryView>::empty());
            assert(out@.map_values(|e: DirEntry| e@) + Seq::<EntryView>::empty() =~= out@.map_values(|e: DirEntry| e@));
        }
        Some(out)
    }

    /// Find a directory entry by name. `"*"` returns the first PRG.
    #[verifier::spinoff_prover]
    pub fn find(&self, name: &str) -> (r: Option<DirEntry>)
        requires
            spec_directory(self@) is Some,
        ensures
            r is Some <==> first_match(spec_directory(self@)->0, name@) is Some,
            r matches Some(e) ==> first_match(spec_directory(self@)->0, name@) == Some(e@),
    {
        let mut dir = self.directory();
        let ghost dv = dir@.map_values(|e: DirEntry| e@);
        let len = name.unicode_len();
        let mut want: Vec<char> = Vec::new();
        let mut k: usize = 0;
        while k < len
            invariant
                len == name@.len(),
                k <= len,
                want@ == upper(name@.take(k as int)),
            decreases len - k,
        {
            let c = upper_char_exec(name.get_char(k));
            want.push(c);
            k = k + 1;
            assert(want@ =~= upper(name@.take(k as int)));
        }
        assert(name@.take(len as int) =~= name@);
        let star = len == 1 && name.get_char(0) == '*';
        assert(star == (name@ == seq!['*'])) by {
            if name@.len() == 1 {
                assert(name@ =~= seq![name@[0]]);
            }
        }
        assert(dv.subrange(0, dv.len() as int) =~= dv);
        let mut i: usize = 0;
        while i < dir.len()
            invariant
                dv == dir@.map_values(|e: DirEntry| e@),
                dv == spec_directory(self@)->0,
                want@ == upper(name@),
                star == (name@ == seq!['*']),
                i <= dir@.len(),
                first_match(dv, name@) == first_match(dv.subrange(i as int, dv.len() as int), name@),
            decreases dir@.len() - i,
        {
            let m = if star {
                dir[i].is_prg()
            } else {
                dir[i].upper_name_is(&want)
            };
            assert(dv.subrange(i as int, dv.len() as int)[0] == dir@[i as int]@);
            if m {
                let e = dir.remove(i);
                return Some(e);
            }
            assert(dv.subrange(i + 1, dv.len() as int) =~= dv.subrange(i as int, dv.len() as int).drop_first());
            i = i + 1;
        }
        None
    }

    /// Append the image bytes `from..to` to `out`.
    fn append_range(&self, out: &mut Vec<u8>, from: usize, to: usize)
        requires
            from <= to <= self@.len(),
        ensures
            final(out)@ == old(out)@ + self@.subrange(from as int, to as int),
    {
        let ghost start = out@;
        let mut k = from;
        while k < to
            invariant
                from <= k <= to,
                to <= self@.len(),
                out@ == start + self@.subrange(from as int, k as int),
            decreases to - k,
        {
            out.push(self.data[k]);
            k = k + 1;
            assert(out@ =~= start + self@.subrange(from as int, k as int));
        }
    }

    /// Follow a file's sector chain; `None` when a sector on it lies outside
    /// the image.
    #[verifier::spinoff_prover]
    fn walk_file(&self, entry: &DirEntry) -> (r: Option<Vec<u8>>)
        ensures
            r is Some <==> spec_read_file(self@, entry@) is Some,
            r matches Some(out) ==> out@ == spec_read_file(self@, entry@)->0,
    {
        let mut out: Vec<u8> = Vec::new();
        let mut t = entry.track;
        let mut s = entry.sector;
        let mut seen = no_sector_seen();
        let ghost mut seen_set: Set<int> = Set::empty();
        proof {
            assert(seen_set.subset_of(set_int_range(0, 0x10000)));
        }
        while t != 0 && !seen[t as usize * 256 + s as usize]
            invariant
                seen@.len() == 0x10000,
                walk_set_ok(seen_set),
                forall|j: int| 0 <= j < 0x10000 ==> seen@[j] == seen_set.contains(j),
                spec_read_file(self@, entry@) is Some <==> file_walk(self@, t, s, seen_set) is Some,
                file_walk(self@, t, s, seen_set) is Some ==> spec_read_file(self@, entry@)->0
                    == out@ + file_walk(self@, t, s, seen_set)->0,
            decreases 0x10000 - seen_set.len(),
        {
            let key = t as usize * 256 + s as usize;
            proof {
                lemma_walk_step(seen_set, key as int);
                lemma_sector_offset_bound(t, s);
            }
            seen.set(key, true);
            let o = Self::sector_offset(t, s);
            let n = self.data.len();
            if o + 2 > n {
                return None;
            }
            let nt = self.data[o];
            let ns = self.data[o + 1];
            if nt == 0 {
                // Last sector: `ns` is the offset of the final used byte.
                let used: usize = if ns >= 1 { (ns - 1) as usize } else { 0 };
                if o + 2 + used > n {
                    return None;
                }
                let ghost before = out@;
                self.append_range(&mut out, o + 2, o + 2 + used);
                assert(out@ =~= before + self@.subrange(o + 2, o + 2 + used));
                return Some(out);
            }
            if o + 256 > n {
                return None;
            }
            let ghost before = out@;
            self.append_range(&mut out, o + 2, o + 256);
            proof {
                assert(before + (self@.subrange(o + 2, o + 256) + file_walk(self@, nt, ns, seen_set.insert(key as int))->0)
                    =~= out@ + file_walk(self@, nt, ns, seen_set.insert(key as int))->0);
                seen_set = seen_set.insert(key as int);
            }
            t = nt;
            s = ns;
        }
        proof {
            assert(out@ + Seq::<u8>::empty() =~= out@);
        }
        Some(out)
    }

    /// True when every sector of the file's chain that is read lies inside
    /// the image, so that `read_file` can read it.
    pub fn file_readable(&self, entry: &DirEntry) -> (b: bool)
        ensures
            b == spec_read_file(self@, entry@) is Some,
    {
        self.walk_file(entry).is_some()
    }

    /// Extract a file's full byte stream by following its sector chain.
    /// For a PRG the first two bytes are the little-endian load address.
    pub fn read_file(&self, entry: &DirEntry) -> (out: Vec<u8>)
        requires
            spec_read_file(self@, entry@) is Some,
        ensures
            out@ == spec_read_file(self@, entry@)->0,
    {
        match self.walk_file(entry) {
            Some(out) => out,
            None => Vec::new(),
        }
    }

    /// True when every directory sector on the chain lies inside the image,
    /// so that `directory` and `find` can read it.
    pub fn directory_readable(&self) -> (b: bool)
        ensures
            b == spec_directory(self@) is Some,
    {
        self.walk_directory().is_some()
    }

    /// Walk the directory chain starting at track 18, sector 1.
    pub fn directory(&self) -> (out: Vec<DirEntry>)
        requires
            spec_directory(self@) is Some,
        ensures
            out@.map_values(|e: DirEntry| e@) == spec_directory(self@)->0,
    {
        match self.walk_directory() {
            Some(out) => out,
            None => Vec::new(),
        }
    }
}


// ---------------------------------------------------------------------------
// BASIC autostart stubs
// ---------------------------------------------------------------------------

/// Index of the first `b` in `s` at or after `i`.
pub open spec fn find_byte_from(s: Seq<u8>, b: u8, i: int) -> Option<int>
    decreases s.len() - i,
{
    if i < 0 || i >= s.len() {
        None
    } else if s[i] == b {
        Some(i)
    } else {
        find_byte_from(s, b, i + 1)
    }
}

/// Index of the first byte at or after `i` that is not a space.
pub open spec fn skip_spaces(s: Seq<u8>, i: int) -> int
    decreases s.len() - i,
{
    if 0 <= i < s.len() && s[i] == 0x20 {
        skip_spaces(s, i + 1)
    } else {
        i
    }
}

pub open spec fn is_digit(b: u8) -> bool {
    0x30 <= b <= 0x39
}

/// Index of the first byte at or after `i` that is not a decimal digit.
pub open spec fn digits_end(s: Seq<u8>, i: int) -> int
    decreases s.len() - i,
{
    if 0 <= i < s.len() && is_digit(s[i]) {
        digits_end(s, i + 1)
    } else {
        i
    }
}

/// The number written by a run of ASCII decimal digits.
pub open spec fn decimal_value(s: Seq<u8>) -> nat
    decreases s.len(),
{
    if s.len() == 0 {
        0
    } else {
        decimal_value(s.drop_last()) * 10 + (s.last() - 0x30) as nat
    }
}

/// The `SYS` target of a tokenised BASIC stub: after the first SYS token
/// ($9E), spaces are skipped and the run of decimal digits that follows is
/// read, truncated to 16 bits; `None` when there is no token or no digit.
pub open spec fn spec_sys_target(payload: Seq<u8>) -> Option<u16> {
    match find_byte_from(payload, 0x9E, 0) {
        None => None,
        Some(p) => {
            let a = skip_spaces(payload, p + 1);
            let e = digits_end(payload, a);
            if e > a {
                Some((decimal_value(payload.subrange(a, e)) % 0x10000) as u16)
            } else {
                None
            }
        },
    }
}

proof fn lemma_decimal_step(v: nat, d: nat)
    ensures
        ((v % 0x10000) * 10 + d) % 0x10000 == (v * 10 + d) % 0x10000,
{
    lemma_mul_mod_noop_left(v as int, 10, 0x10000);
    lemma_add_mod_noop(((v % 0x10000) * 10) as int, d as int, 0x10000);
    lemma_add_mod_noop((v * 10) as int, d as int, 0x10000);
}

/// Parse the `SYS <addr>` target from a tokenised BASIC autostart stub
/// (the payload, i.e. the file bytes after the 2-byte load address).
pub fn basic_sys_target(payload: &[u8]) -> (r: Option<u16>)
    ensures
        r == spec_sys_target(payload@),
{
    let len = payload.len();
    // The SYS token.
    let mut p: usize = 0;
    while p < len && payload[p] != 0x9E
        invariant
            len == payload@.len(),
            p <= len,
            find_byte_from(payload@, 0x9E, 0) == find_byte_from(payload@, 0x9E, p as int),
        decreases len - p,
    {
        p = p + 1;
    }
    if p == len {
        return None;
    }
    // Spaces before the number.
    let mut a: usize = p + 1;
    while a < len && payload[a] == 0x20
        invariant
            len == payload@.len(),
            p < a <= len,
            skip_spaces(payload@, p + 1) == skip_spaces(payload@, a as int),
        decreases len - a,
    {
        a = a + 1;
    }
    // The digits.
    let mut e: usize = a;
    let mut n: u16 = 0;
    while e < len && 0x30 <= payload[e] && payload[e] <= 0x39
        invariant
            len == payload@.len(),
            a <= e <= len,
            digits_end(payload@, a as int) == digits_end(payload@, e as int),
            n == decimal_value(payload@.subrange(a as int, e as int)) % 0x10000,
        decreases len - e,
    {
        let d = payload[e] - 0x30;
        let wide: u32 = (n as u32) * 10 + d as u32;
        proof {
            let v = decimal_value(payload@.subrange(a as int, e as int));
            assert(payload@.subrange(a as int, e + 1).drop_last() =~= payload@.subrange(a as int, e as int));
            lemma_decimal_step(v, d as nat);
        }
        n = (wide % 0x10000) as u16;
        e = e + 1;
    }
    if e > a {
        Some(n)
    } else {
        None
    }
}

/// The address a loaded program is started at: its BASIC stub's `SYS`
/// target, or else just past a typical stub (`load_addr + 10`, wrapping).
pub fn parse_sys_target(payload: &[u8], load_addr: u16) -> (a: u16)
    ensures
        a == (match spec_sys_target(payload@) {
            Some(n) => n,
            None => ((load_addr + 10) % 0x10000) as u16,
        }),
{
    match basic_sys_target(payload) {
        Some(n) => n,
        None => {
            let r = if load_addr <= 0xFFF5 { load_addr + 10 } else { load_addr - 0xFFF6 };
            r
        },
    }
}


// ---------------------------------------------------------------------------
// Laws
// ---------------------------------------------------------------------------

/// A track/sector pair that exists on a 35-track disk.
pub open spec fn valid_sector(t: u8, s: u8) -> bool {
    1 <= t <= 35 && s < spec_sectors_per_track(t)
}

proof fn lemma_track_base_grows(t1: int, t2: int)
    requires
        1 <= t1 < t2,
    ensures
        track_base(t1) + spec_sectors_per_track(t1 as u8) <= track_base(t2),
    decreases t2 - t1,
{
    if t2 > t1 + 1 {
        lemma_track_base_grows(t1, t2 - 1);
    }
}

/// The 683 sectors of a 35-track image lie one after another: each valid
/// track/sector pair has its own 256-byte slot, and all the slots fit in the
/// 174,848 bytes of the image.
pub proof fn law_sector_layout(t1: u8, s1: u8, t2: u8, s2: u8)
    requires
        valid_sector(t1, s1),
        valid_sector(t2, s2),
    ensures
        spec_sector_offset(t1, s1) + 256 <= DISK_SIZE_35,
        (t1, s1) != (t2, s2) ==> spec_sector_offset(t1, s1) + 256 <= spec_sector_offset(t2, s2)
            || spec_sector_offset(t2, s2) + 256 <= spec_sector_offset(t1, s1),
{
    reveal_with_fuel(track_base, 37);
    assert(track_base(36) == 683);
    if t1 < 35 {
        lemma_track_base_grows(t1 as int, 36);
    }
    if t1 < t2 {
        lemma_track_base_grows(t1 as int, t2 as int);
    } else if t2 < t1 {
        lemma_track_base_grows(t2 as int, t1 as int);
    }
}

/// Offset of the `i`-th sector of a list of track/sector pairs.
pub open spec fn chain_offset(chain: Seq<(u8, u8)>, i: int) -> int {
    spec_sector_offset(chain[i].0, chain[i].1)
}

/// `chain` is the directory chain of `data`: it starts at 18/1, every sector
/// on it lies inside the image, no sector occurs twice, the link bytes of each
/// sector name the next one, and the last sector links to track 0 or back to
/// a sector already on the chain.
pub open spec fn is_dir_chain(data: Seq<u8>, chain: Seq<(u8, u8)>) -> bool {
    &&& chain.len() >= 1
    &&& chain[0] == (DIR_TRACK, 1u8)
    &&& forall|i: int| 0 <= i < chain.len() ==> #[trigger] chain[i].0 != 0 && dir_sector_readable(data, chain_offset(chain, i))
    &&& forall|i: int, j: int| 0 <= i < j < chain.len() ==> #[trigger] chain[i] != #[trigger] chain[j]
    &&& forall|i: int| 0 <= i < chain.len() - 1 ==> #[trigger] chain[i + 1] == (data[chain_offset(chain, i)], data[chain_offset(chain, i) + 1])
    &&& ({
        let o = chain_offset(chain, chain.len() - 1);
        data[o] == 0 || exists|j: int| 0 <= j < chain.len() && #[trigger] chain[j] == (data[o], data[o + 1])
    })
}

/// The used slots of the sectors of `chain` from position `k` on, in chain order.
pub open spec fn chain_entries(data: Seq<u8>, chain: Seq<(u8, u8)>, k: int) -> Seq<EntryView>
    decreases chain.len() - k,
{
    if k < 0 || k >= chain.len() {
        Seq::empty()
    } else {
        sector_entries(data, chain_offset(chain, k), 8) + chain_entries(data, chain, k + 1)
    }
}

/// The keys of the first `k` sectors of `chain`.
pub open spec fn chain_keys(chain: Seq<(u8, u8)>, k: int) -> Set<int>
    decreases k,
{
    if k <= 0 {
        Set::empty()
    } else {
        chain_keys(chain, k - 1).insert(ts_key(chain[k - 1].0, chain[k - 1].1))
    }
}

proof fn lemma_chain_keys(chain: Seq<(u8, u8)>, k: int)
    requires
        0 <= k <= chain.len(),
        forall|i: int, j: int| 0 <= i < j < chain.len() ==> #[trigger] chain[i] != #[trigger] chain[j],
    ensures
        walk_set_ok(chain_keys(chain, k)),
        chain_keys(chain, k).len() == k,
        forall|t: u8, s: u8| #[trigger] chain_keys(chain, k).contains(ts_key(t, s)) <==> exists|j: int|
            0 <= j < k && #[trigger] chain[j] == (t, s),
    decreases k,
{
    if k > 0 {
        lemma_chain_keys(chain, k - 1);
        let (t0, s0) = chain[k - 1];
        assert forall|t: u8, s: u8| ts_key(t, s) == ts_key(t0, s0) implies t == t0 && s == s0 by {}
        assert(!chain_keys(chain, k - 1).contains(ts_key(t0, s0))) by {
            if chain_keys(chain, k - 1).contains(ts_key(t0, s0)) {
                let j = choose|j: int| 0 <= j < k - 1 && #[trigger] chain[j] == (t0, s0);
                assert(chain[j] != chain[k - 1]);
            }
        }
        lemma_walk_step(chain_keys(chain, k - 1), ts_key(t0, s0));
        assert forall|t: u8, s: u8| #[trigger] chain_keys(chain, k).contains(ts_key(t, s)) <==> exists|j: int|
            0 <= j < k && #[trigger] chain[j] == (t, s) by {
            if chain_keys(chain, k).contains(ts_key(t, s)) && !chain_keys(chain, k - 1).contains(ts_key(t, s)) {
                assert(chain[k - 1] == (t, s));
            }
            if exists|j: int| 0 <= j < k && #[trigger] chain[j] == (t, s) {
                let j = choose|j: int| 0 <= j < k && #[trigger] chain[j] == (t, s);
                if j < k - 1 {
                    assert(chain_keys(chain, k - 1).contains(ts_key(t, s)));
                }
            }
        }
    }
}

proof fn lemma_walk_chain_from(data: Seq<u8>, chain: Seq<(u8, u8)>, k: int)
    requires
        is_dir_chain(data, chain),
        0 <= k < chain.len(),
    ensures
        dir_walk(data, chain[k].0, chain[k].1, chain_keys(chain, k)) == Some(chain_entries(data, chain, k)),
    decreases chain.len() - k,
{
    lemma_chain_keys(chain, k);
    lemma_chain_keys(chain, k + 1);
    let (t, s) = chain[k];
    let o = chain_offset(chain, k);
    assert(chain[k].0 != 0 && dir_sector_readable(data, o));
    assert(!chain_keys(chain, k).contains(ts_key(t, s))) by {
        if chain_keys(chain, k).contains(ts_key(t, s)) {
            let j = choose|j: int| 0 <= j < k && #[trigger] chain[j] == (t, s);
            assert(chain[j] != chain[k]);
        }
    }
    let seen1 = chain_keys(chain, k).insert(ts_key(t, s));
    assert(seen1 == chain_keys(chain, k + 1));
    assert(walk_set_ok(chain_keys(chain, k)));
    assert(chain_entries(data, chain, k) == sector_entries(data, o, 8) + chain_entries(data, chain, k + 1));
    assert(dir_walk(data, t, s, chain_keys(chain, k)) == match dir_walk(data, data[o], data[o + 1], seen1) {
        Some(rest) => Some(sector_entries(data, o, 8) + rest),
        None => None,
    });
    if k + 1 < chain.len() {
        assert(chain[k + 1] == (data[o], data[o + 1]));
        lemma_walk_chain_from(data, chain, k + 1);
    } else {
        assert(chain_entries(data, chain, k + 1) == Seq::<EntryView>::empty());
        if data[o] != 0 {
            let j = choose|j: int| 0 <= j < chain.len() && #[trigger] chain[j] == (data[o], data[o + 1]);
            assert(chain_keys(chain, k + 1).contains(ts_key(data[o], data[o + 1])));
        }
        assert(sector_entries(data, o, 8) + Seq::<EntryView>::empty() == sector_entries(data, o, 8));
    }
}

/// The directory is the chain of directory sectors from 18/1, followed
/// through each sector's link bytes until track 0 or a sector already seen:
/// it lists the used slots of every sector on that chain, sector by sector in
/// chain order.
pub proof fn law_directory_chain(data: Seq<u8>, chain: Seq<(u8, u8)>)
    requires
        is_dir_chain(data, chain),
    ensures
        spec_directory(data) == Some(chain_entries(data, chain, 0)),
{
    lemma_walk_chain_from(data, chain, 0);
    assert(chain_keys(chain, 0) == Set::<int>::empty());
}

} // verus!
