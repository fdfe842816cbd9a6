//! The global name pool: handles, entries and the display names built from them.
use vstd::prelude::*;
use vstd::utf8::{
    valid_utf8, decode_utf8, encode_utf8, is_ascii_chars, is_ascii_chars_encode_utf8,
    encode_utf8_valid_utf8, encode_utf8_decode_utf8,
};
use vstd::string::StrSliceExecFns;
use crate::text::{
    last_index_of, decimal_chars, find_last, string_from_utf8, decimal_string,
    lemma_last_index_of_bounds, lemma_decimal_chars_are_digits,
};

verus! {

/// A name-pool handle: the block that holds an entry and the entry's offset
/// within the block, counted in 2-byte units.
pub struct FNameEntryHandle {
    pub block: u32,
    pub offset: u32,
}

/// The block that a name index selects: its upper 16 bits.
pub open spec fn handle_block(index: u32) -> nat {
    (index as nat) / 65536
}

/// The offset that a name index selects: its lower 16 bits.
pub open spec fn handle_offset(index: u32) -> nat {
    (index as nat) % 65536
}

impl FNameEntryHandle {
    pub fn new(block: u32, offset: u32) -> (h: Self)
        ensures
            h.block == block,
            h.offset == offset,
    {
        Self { block, offset }
    }

    /// Splits a name index into its block (upper 16 bits) and offset (lower 16 bits).
    pub fn index_to_handle(index: u32) -> (h: FNameEntryHandle)
        ensures
            h.block == handle_block(index),
            h.offset == handle_offset(index),
            h.block < 65536,
            h.offset < 65536,
            h.block * 65536 + h.offset == index,
    {
        let block = index >> 16;
        let offset = index & 65535;
        assert(index >> 16u32 == index / 65536) by (bit_vector);
        assert(index & 65535u32 == index % 65536) by (bit_vector);
        FNameEntryHandle::new(block, offset)
    }
}

/// Bit 0 of an entry header: the entry holds UTF-16 text.
pub open spec fn header_is_wide(flags: u16) -> bool {
    flags % 2 == 1
}

/// Bits 6 to 15 of an entry header: the length of the entry's text.
pub open spec fn header_len(flags: u16) -> nat {
    (flags as nat / 64) % 1024
}

/// The text of an entry: empty for a wide entry; otherwise its first
/// `header_len` bytes decoded as UTF-8, or empty when they are not UTF-8.
pub open spec fn entry_text(flags: u16, bytes: Seq<u8>) -> Seq<char> {
    if header_is_wide(flags) {
        Seq::empty()
    } else {
        let b = bytes.take(header_len(flags) as int);
        if valid_utf8(b) {
            decode_utf8(b)
        } else {
            Seq::empty()
        }
    }
}

/// A name-pool entry: a 16-bit header and up to 1024 bytes of text.
pub struct FNameEntry {
    flags: u16,
    name: [u8; 1024],
}

impl FNameEntry {
    /// The entry's header.
    pub closed spec fn header(&self) -> u16 {
        self.flags
    }

    /// The entry's text buffer, read as single bytes.
    pub closed spec fn ansi_bytes(&self) -> Seq<u8> {
        self.name@
    }

    /// The text buffer always holds 1024 bytes.
    pub proof fn lemma_buffer_len(&self)
        ensures
            self.ansi_bytes().len() == 1024,
    {
    }

    /// The text this entry names.
    pub open spec fn text(&self) -> Seq<char> {
        entry_text(self.header(), self.ansi_bytes())
    }

    /// An entry with the given header and text buffer.
    pub fn from_parts(flags: u16, name: [u8; 1024]) -> (e: Self)
        ensures
            e.header() == flags,
            e.ansi_bytes() == name@,
            e.ansi_bytes().len() == 1024,
    {
        FNameEntry { flags, name }
    }

    pub fn is_wide(&self) -> (r: bool)
        ensures
            r == header_is_wide(self.header()),
    {
        let f = self.flags;
        assert((f & 1u16) != 0u16 <==> f % 2 == 1) by (bit_vector);
        (self.flags & 0x1) != 0x0
    }

    pub fn len(&self) -> (r: u16)
        ensures
            r == header_len(self.header()),
            r < 1024,
            r < self.ansi_bytes().len(),
    {
        let f = self.flags;
        assert((f >> 6u16) & 0x3FFu16 == (f / 64) % 1024) by (bit_vector);
        (self.flags >> 6) & 0x3FF
    }

    /// The entry's text; empty for a wide entry or for bytes that are not UTF-8.
    pub fn string(&self) -> (s: String)
        ensures
            s@ == self.text(),
    {
        if self.is_wide() {
            return String::new();
        }
        let n = self.len() as usize;
        let mut bytes: Vec<u8> = Vec::new();
        let mut i: usize = 0;
        while i < n
            invariant
                n == header_len(self.flags),
                n < 1024,
                i <= n,
                bytes@ == self.name@.take(i as int),
            decreases n - i,
        {
            bytes.push(self.name[i]);
            i = i + 1;
            assert(bytes@ =~= self.name@.take(i as int));
        }
        match string_from_utf8(bytes) {
            Some(s) => s,
            None => String::new(),
        }
    }
}

/// The global name pool: its lock, cursor, and the addresses of its blocks.
pub struct FNamePool {
    pub lock: [u8; 8],
    pub current_block: u32,
    pub current_byte_cursor: u32,
    pub blocks: [u64; 8192],
}

impl FNamePool {
    /// The address of the entry that `handle` selects: its block's address
    /// plus twice its offset.
    pub fn get_entry(&self, handle: FNameEntryHandle) -> (addr: u64)
        requires
            handle.block < 8192,
            self.blocks@[handle.block as int] + 2 * handle.offset <= u64::MAX,
        ensures
            addr == self.blocks@[handle.block as int] + 2 * handle.offset,
    {
        let block_ptr = self.blocks[handle.block as usize];
        block_ptr + (2 * handle.offset as u64)
    }
}

/// `text` with `_` and the decimal `number` appended when `number` is not zero.
pub open spec fn numbered_text(text: Seq<char>, number: u32) -> Seq<char> {
    if number > 0 {
        text + seq!['_'] + decimal_chars(number as nat)
    } else {
        text
    }
}

/// What follows the last `/` of `s`, or all of `s` when it has none.
pub open spec fn after_last_slash(s: Seq<char>) -> Seq<char> {
    match last_index_of(s, '/') {
        Some(i) => s.subrange(i + 1, s.len() as int),
        None => s,
    }
}

/// The display name of an entry's text with an instance number.
pub open spec fn display_name(text: Seq<char>, number: u32) -> Seq<char> {
    after_last_slash(numbered_text(text, number))
}

/// A name: an index into the name pool and an instance number.
#[derive(Clone, Copy, PartialEq, Eq, Structural)]
pub struct FName {
    pub index: u32,
    pub number: u32,
}

impl FName {
    /// The address of this name's pool entry: the entry that the handle of its
    /// index selects.
    pub fn entry_address(&self, pool: &FNamePool) -> (addr: u64)
        requires
            handle_block(self.index) < 8192,
            pool.blocks@[handle_block(self.index) as int] + 2 * handle_offset(self.index) <= u64::MAX,
        ensures
            addr == pool.blocks@[handle_block(self.index) as int] + 2 * handle_offset(self.index),
    {
        let handle = FNameEntryHandle::index_to_handle(self.index);
        pool.get_entry(handle)
    }

    /// The display name of this name, given the pool entry that its index selects:
    /// the entry's text, `_` and the number when the number is not zero, and of
    /// all that only what follows the last `/`.
    pub fn get_name(&self, entry: &FNameEntry) -> (s: String)
        ensures
            s@ == display_name(entry.text(), self.number),
    {
        let mut name = entry.string();
        if self.number > 0 {
            let digits = decimal_string(self.number);
            proof {
                reveal_strlit("_");
            }
            name = name.concat("_").concat(digits.as_str());
        }
        assert(name@ == numbered_text(entry.text(), self.number));
        match find_last(name.as_str(), '/') {
            Some(pos) => {
                proof {
                    lemma_last_index_of_bounds(name@, '/');
                }
                let n = name.as_str().unicode_len();
                name.as_str().substring_char(pos + 1, n).to_owned()
            },
            None => name,
        }
    }
}

/// The text of a narrow entry whose bytes are ASCII is those bytes, one
/// character each.
pub proof fn law_ascii_entry_text(flags: u16, bytes: Seq<u8>)
    requires
        !header_is_wide(flags),
        header_len(flags) <= bytes.len(),
        forall|i: int| 0 <= i < header_len(flags) ==> #[trigger] bytes[i] < 128,
    ensures
        entry_text(flags, bytes) == Seq::new(header_len(flags), |i: int| bytes[i] as char),
{
    let n = header_len(flags);
    let b = bytes.take(n as int);
    let chars = Seq::new(n, |i: int| bytes[i] as char);
    assert forall|i: int| 0 <= i < chars.len() implies '\0' <= #[trigger] chars[i] <= '\u{7f}' by {
        assert(bytes[i] < 128);
    }
    assert(is_ascii_chars(chars));
    is_ascii_chars_encode_utf8(chars);
    assert forall|i: int| 0 <= i < n implies #[trigger] encode_utf8(chars)[i] == b[i] by {
        let c = bytes[i];
        assert(chars[i] as u8 == encode_utf8(chars)[i]);
        assert((c as char) as u8 == c) by {
            assert(c < 128);
        }
    }
    assert(encode_utf8(chars) =~= b);
    encode_utf8_valid_utf8(chars);
    encode_utf8_decode_utf8(chars);
}

/// No display name holds a `/`.
pub proof fn law_display_name_has_no_slash(text: Seq<char>, number: u32)
    ensures
        forall|k: int|
            0 <= k < display_name(text, number).len() ==> #[trigger] display_name(text, number)[k]
                != '/',
{
    let s = numbered_text(text, number);
    lemma_last_index_of_bounds(s, '/');
}

/// A non-zero instance number always shows at the end of the display name,
/// after `_`.
pub proof fn law_display_name_ends_with_number(text: Seq<char>, number: u32)
    requires
        number > 0,
    ensures
        ({
            let d = seq!['_'] + decimal_chars(number as nat);
            let r = display_name(text, number);
            r.len() >= d.len() && r.subrange(r.len() - d.len(), r.len() as int) == d
        }),
{
    let d = seq!['_'] + decimal_chars(number as nat);
    let s = numbered_text(text, number);
    assert(s == text + d);
    lemma_last_index_of_bounds(s, '/');
    lemma_decimal_chars_are_digits(number as nat);
    assert forall|k: int| text.len() <= k < s.len() implies s[k] != '/' by {
        if k > text.len() {
            assert(s[k] == decimal_chars(number as nat)[k - text.len() - 1]);
        }
    }
    let r = display_name(text, number);
    match last_index_of(s, '/') {
        Some(i) => {
            assert(i < text.len());
            assert(r.subrange(r.len() - d.len(), r.len() as int) =~= d);
        },
        None => {
            assert(r.subrange(r.len() - d.len(), r.len() as int) =~= d);
        },
    }
}

/// A display name is what follows the last `/` of the numbered text: a suffix
/// of the text with its number, preceded there by a `/` whenever it is shorter.
pub proof fn law_display_name_is_last_segment(text: Seq<char>, number: u32)
    ensures
        ({
            let t = if number > 0 {
                text + seq!['_'] + decimal_chars(number as nat)
            } else {
                text
            };
            let r = display_name(text, number);
            &&& r.len() <= t.len()
            &&& r == t.subrange(t.len() - r.len(), t.len() as int)
            &&& r.len() < t.len() ==> t[t.len() - r.len() - 1] == '/'
        }),
{
    let t = numbered_text(text, number);
    lemma_last_index_of_bounds(t, '/');
    let r = display_name(text, number);
    match last_index_of(t, '/') {
        Some(i) => {
            assert(r =~= t.subrange(t.len() - r.len(), t.len() as int));
        },
        None => {
            assert(r =~= t.subrange(t.len() - r.len(), t.len() as int));
        },
    }
}

/// The header's length field is its bits 6 to 15: the header is the length
/// times 64 plus its low 6 bits.
pub proof fn law_header_len_bits(flags: u16)
    ensures
        header_len(flags) * 64 + flags % 64 == flags,
        header_len(flags) < 1024,
{
}

/// A name without a `/` is shown as it is, followed by `_` and its instance
/// number when that is not zero.
pub proof fn law_display_name_plain(text: Seq<char>)
    requires
        forall|k: int| 0 <= k < text.len() ==> text[k] != '/',
    ensures
        display_name(text, 0) == text,
        forall|number: u32|
            number > 0 ==> #[trigger] display_name(text, number) == text + seq!['_'] + decimal_chars(
                number as nat,
            ),
{
    lemma_last_index_of_bounds(text, '/');
    assert forall|number: u32| number > 0 implies #[trigger] display_name(text, number) == text
        + seq!['_'] + decimal_chars(number as nat) by {
        let t = numbered_text(text, number);
        lemma_last_index_of_bounds(t, '/');
        lemma_decimal_chars_are_digits(number as nat);
        assert forall|k: int| 0 <= k < t.len() implies t[k] != '/' by {
            if k > text.len() {
                assert(t[k] == decimal_chars(number as nat)[k - text.len() - 1]);
            } else if k < text.len() {
                assert(t[k] == text[k]);
            }
        }
        if let Some(i) = last_index_of(t, '/') {
            assert(t[i] == '/');
        }
    }
}

} // verus!
