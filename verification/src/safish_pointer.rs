//! A bounds-checked, alignment-checked cursor over the mapped byte range.
//!
//! A `SafishPointer` never touches memory itself: it carries a position, a
//! remaining byte budget and the declared byte order, and every read takes the
//! current bytes of the region and is checked against both the budget and the
//! region's length before any byte is looked at. The backing memory is
//! overwritten concurrently by the publishing process, so no read assumes
//! anything about the bytes it finds — only that they were within bounds.

use vstd::prelude::*;

use crate::codec::{
    bools_at, char_from_u32, i16_at, i16s_at, i32_at, i32s_at, i64_at, i64s_at, is_char_code,
    is_control, lemma_text_at_stops, read_u16_at, read_u32_at, read_u64_at, spec_is_control,
    string_push, text_at, u32_at, u32s_at, u64_at, u64s_at, Endianness,
};
use crate::errors::Error;

verus! {

/// The element type a cursor is currently typed at: its size decides every
/// bounds check, its alignment every reinterpretation check. The floating
/// kinds are byte buffers (alignment one): their bytes are decoded to a bit
/// pattern first and reinterpreted as a floating value only outside the
/// decoding layer.
#[derive(Debug, Clone, Copy, PartialEq, Eq, Structural)]
pub enum Element {
    Byte,
    Char,
    Short,
    Int,
    Long,
    Float,
    Double,
}

impl Element {
    /// The element's size in bytes.
    pub open spec fn spec_size(self) -> int {
        match self {
            Element::Byte => 1,
            Element::Char => 4,
            Element::Short => 2,
            Element::Int => 4,
            Element::Long => 8,
            Element::Float => 4,
            Element::Double => 8,
        }
    }

    /// The element's alignment requirement in bytes.
    pub open spec fn spec_align(self) -> int {
        match self {
            Element::Byte => 1,
            Element::Char => 4,
            Element::Short => 2,
            Element::Int => 4,
            Element::Long => 8,
            Element::Float => 1,
            Element::Double => 1,
        }
    }

    /// The element's size in bytes.
    pub fn size(&self) -> (s: usize)
        ensures
            s == self.spec_size(),
    {
        match self {
            Element::Byte => 1,
            Element::Char => 4,
            Element::Short => 2,
            Element::Int => 4,
            Element::Long => 8,
            Element::Float => 4,
            Element::Double => 8,
        }
    }

    /// The element's alignment requirement in bytes.
    pub fn align(&self) -> (a: usize)
        ensures
            a == self.spec_align(),
    {
        match self {
            Element::Byte => 1,
            Element::Char => 4,
            Element::Short => 2,
            Element::Int => 4,
            Element::Long => 8,
            Element::Float => 1,
            Element::Double => 1,
        }
    }
}

/// A typed cursor into the mapped region: an offset from the start of the
/// region, the number of bytes it may still touch from there, and the byte
/// order declared by the file header. "Safish" because the bytes behind it
/// may change at any moment; what is guaranteed is only that no operation
/// ever reads outside `[offset, offset + max_byte_offset)`.
#[derive(Debug, Clone, Copy, PartialEq, Eq, Structural)]
pub struct SafishPointer {
    /// The element type the cursor is currently typed at.
    pub elem: Element,
    /// Byte offset of the cursor from the start of the region.
    pub offset: usize,
    /// Bytes the cursor may still touch, starting at `offset`.
    pub max_byte_offset: usize,
    /// The byte order applied to every multi-byte read.
    pub endianness: Endianness,
}

impl SafishPointer {
    /// A well-formed cursor has room for at least one element, and its
    /// reachable range stays within the address space.
    pub open spec fn wf(self) -> bool {
        &&& self.elem.spec_size() <= self.max_byte_offset
        &&& self.offset + self.max_byte_offset <= usize::MAX
    }

    /// Whether the budget has room for `count` elements.
    pub open spec fn room_for(self, count: int) -> bool {
        count * self.elem.spec_size() <= self.max_byte_offset
    }

    /// Whether the cursor's whole reachable range lies inside a region of
    /// `region_len` bytes.
    pub open spec fn covered_by(self, region_len: int) -> bool {
        self.offset + self.max_byte_offset <= region_len
    }

    /// Whether a read of `count` elements is within both the budget and a
    /// region of `region_len` bytes.
    pub open spec fn read_ok(self, count: int, region_len: int) -> bool {
        &&& self.room_for(count)
        &&& self.offset + count * self.elem.spec_size() <= region_len
    }

    /// What `new` returns: a cursor is created exactly when one element fits
    /// the budget and the reachable range stays within the address space.
    pub open spec fn spec_new(
        elem: Element,
        offset: int,
        max_byte_offset: int,
        endianness: Endianness,
    ) -> Result<SafishPointer, Error> {
        if elem.spec_size() > max_byte_offset {
            Err(Error::WontBeAbleToRead)
        } else if offset + max_byte_offset > usize::MAX {
            Err(Error::OffsetOutOfBounds)
        } else {
            Ok(
                SafishPointer {
                    elem,
                    offset: offset as usize,
                    max_byte_offset: max_byte_offset as usize,
                    endianness,
                },
            )
        }
    }

    /// What `add` returns: the cursor moved forward by `offset` elements,
    /// exactly when the budget still has room for one more element there.
    pub open spec fn spec_add(self, offset: int) -> Result<SafishPointer, Error> {
        if (offset + 1) * self.elem.spec_size() > self.max_byte_offset {
            Err(Error::WontBeAbleToRead)
        } else {
            Ok(
                SafishPointer {
                    offset: (self.offset + offset * self.elem.spec_size()) as usize,
                    max_byte_offset: (self.max_byte_offset - offset
                        * self.elem.spec_size()) as usize,
                    ..self
                },
            )
        }
    }

    /// What `convert` returns: the cursor retyped at `elem`, exactly when the
    /// new element fits the remaining budget and the position is aligned for
    /// it; the two failures are distinct.
    pub open spec fn spec_convert(self, elem: Element) -> Result<SafishPointer, Error> {
        if elem.spec_size() > self.max_byte_offset {
            Err(Error::WontBeAbleToRead)
        } else if self.offset as int % elem.spec_align() != 0 {
            Err(Error::NotAlignedForConversion)
        } else {
            Ok(SafishPointer { elem, ..self })
        }
    }

    /// Creates a cursor typed at `elem`, at `offset` from the region start,
    /// allowed to touch the next `max_byte_offset` bytes. Fails exactly when
    /// there is no room for even one element, or the range would leave the
    /// address space.
    pub fn new(elem: Element, offset: usize, max_byte_offset: usize, endianness: Endianness) -> (r:
        Result<SafishPointer, Error>)
        ensures
            r == SafishPointer::spec_new(elem, offset as int, max_byte_offset as int, endianness),
            r matches Ok(p) ==> p.wf(),
    {
        let size = elem.size();
        if size > max_byte_offset {
            Err(Error::WontBeAbleToRead)
        } else if offset > usize::MAX - max_byte_offset {
            Err(Error::OffsetOutOfBounds)
        } else {
            Ok(SafishPointer { elem, offset, max_byte_offset, endianness })
        }
    }

    /// Checks that the budget has room for `count` elements.
    fn validate_room_for(&self, count: usize) -> (r: Result<(), Error>)
        ensures
            match r {
                Ok(()) => self.room_for(count as int),
                Err(e) => !self.room_for(count as int) && e == Error::WontBeAbleToRead,
            },
    {
        let size = self.elem.size();
        let required: u128 = (count as u128) * (size as u128);
        proof {
            assert((count as u128) * (size as u128) == count * self.elem.spec_size())
                by (nonlinear_arith)
                requires
                    size == self.elem.spec_size(),
                    0 <= size <= 8,
                    0 <= count <= usize::MAX,
            ;
        }
        if (self.max_byte_offset as u128) < required {
            Err(Error::WontBeAbleToRead)
        } else {
            Ok(())
        }
    }

    /// Moves the cursor forward by `offset` elements, shrinking the budget by
    /// the bytes consumed. Succeeds exactly when the budget still has room
    /// for one more element at the new position.
    pub fn add(self, offset: usize) -> (r: Result<SafishPointer, Error>)
        requires
            self.wf(),
        ensures
            r == self.spec_add(offset as int),
            r matches Ok(p) ==> p.wf(),
    {
        let size = self.elem.size();
        let needed: u128 = (offset as u128 + 1) * (size as u128);
        proof {
            assert((offset as u128 + 1) * (size as u128) == (offset + 1) * self.elem.spec_size()
                && (offset + 1) * self.elem.spec_size() == offset * self.elem.spec_size()
                + self.elem.spec_size() && 0 <= offset * self.elem.spec_size())
                by (nonlinear_arith)
                requires
                    size == self.elem.spec_size(),
                    0 <= size <= 8,
                    0 <= offset <= usize::MAX,
            ;
        }
        if (self.max_byte_offset as u128) < needed {
            Err(Error::WontBeAbleToRead)
        } else {
            let consumed = offset * size;
            Ok(SafishPointer {
                offset: self.offset + consumed,
                max_byte_offset: self.max_byte_offset - consumed,
                ..self
            })
        }
    }

    /// Reinterprets the cursor at a new element type. Fails with the bounds
    /// error when the new element does not fit the remaining budget, and with
    /// the distinct alignment error when the position is not aligned for the
    /// new element.
    pub fn convert(self, elem: Element) -> (r: Result<SafishPointer, Error>)
        requires
            self.wf(),
        ensures
            r == self.spec_convert(elem),
            r matches Ok(p) ==> p.wf(),
    {
        let size = elem.size();
        if size > self.max_byte_offset {
            Err(Error::WontBeAbleToRead)
        } else if self.offset % elem.align() != 0 {
            Err(Error::NotAlignedForConversion)
        } else {
            Ok(SafishPointer { elem, ..self })
        }
    }
}

impl SafishPointer {
    /// Reads the byte under the cursor.
    pub fn read_u8(&self, region: &Vec<u8>) -> (r: Result<u8, Error>)
        requires
            self.wf(),
            self.elem == Element::Byte,
        ensures
            match r {
                Ok(b) => self.offset < region@.len() && b == region@[self.offset as int],
                Err(e) => self.offset >= region@.len() && e == Error::WontBeAbleToRead,
            },
    {
        if self.offset < region.len() {
            Ok(region[self.offset])
        } else {
            Err(Error::WontBeAbleToRead)
        }
    }

    /// Reads up to `count` bytes as text, stopping at the first ASCII control
    /// byte; the text is the characters of the bytes consumed before the stop.
    pub fn read_string(&self, count: usize, region: &Vec<u8>) -> (r: Result<String, Error>)
        requires
            self.wf(),
            self.elem == Element::Byte,
        ensures
            match r {
                Ok(s) => self.read_ok(count as int, region@.len() as int) && s@ == text_at(
                    region@,
                    self.offset as int,
                    count as int,
                ),
                Err(e) => !self.read_ok(count as int, region@.len() as int) && e
                    == Error::WontBeAbleToRead,
            },
    {
        self.validate_room_for(count)?;
        let n = region.len();
        if self.offset > n || count > n - self.offset {
            return Err(Error::WontBeAbleToRead);
        }
        let mut s = String::new();
        let mut i: usize = 0;
        while i < count
            invariant
                self.room_for(count as int),
                self.elem == Element::Byte,
                region@.len() <= usize::MAX,
                self.offset + count <= region@.len(),
                0 <= i <= count,
                forall|j: int|
                    0 <= j < i ==> !spec_is_control(#[trigger] region@[self.offset + j]),
                s@ =~= region@.subrange(self.offset as int, self.offset + i).map_values(
                    |b: u8| b as char,
                ),
            decreases count - i,
        {
            let b = region[self.offset + i];
            if is_control(b) {
                proof {
                    lemma_text_at_stops(region@, self.offset as int, count as int, i as int);
                    assert(s@ =~= text_at(region@, self.offset as int, count as int));
                }
                return Ok(s);
            }
            string_push(&mut s, b as char);
            i = i + 1;
            proof {
                assert(s@ =~= region@.subrange(self.offset as int, self.offset + i).map_values(
                    |b: u8| b as char,
                ));
            }
        }
        proof {
            lemma_text_at_stops(region@, self.offset as int, count as int, count as int);
            assert(s@ =~= text_at(region@, self.offset as int, count as int));
        }
        Ok(s)
    }

    /// Reads `count` bytes as booleans; a zero byte decodes to true, any
    /// other byte to false — the published format's inverted convention,
    /// reproduced as is.
    pub fn read_booleans(&self, count: usize, region: &Vec<u8>) -> (r: Result<Vec<bool>, Error>)
        requires
            self.wf(),
            self.elem == Element::Byte,
        ensures
            match r {
                Ok(v) => self.read_ok(count as int, region@.len() as int) && v@ == bools_at(
                    region@,
                    self.offset as int,
                    count as int,
                ),
                Err(e) => !self.read_ok(count as int, region@.len() as int) && e
                    == Error::WontBeAbleToRead,
            },
    {
        self.validate_room_for(count)?;
        let n = region.len();
        if self.offset > n || count > n - self.offset {
            return Err(Error::WontBeAbleToRead);
        }
        let mut v: Vec<bool> = Vec::new();
        let mut i: usize = 0;
        while i < count
            invariant
                self.room_for(count as int),
                self.elem == Element::Byte,
                region@.len() <= usize::MAX,
                self.offset + count <= region@.len(),
                0 <= i <= count,
                v@ =~= bools_at(region@, self.offset as int, i as int),
            decreases count - i,
        {
            v.push(region[self.offset + i] == 0);
            i = i + 1;
            proof {
                assert(v@ =~= bools_at(region@, self.offset as int, i as int));
            }
        }
        Ok(v)
    }

    /// Reads the character under the cursor: a 32-bit scalar value in the
    /// declared byte order. A pattern that is no Unicode scalar value is a
    /// conversion failure, distinct from the bounds failure.
    pub fn read_char(&self, region: &Vec<u8>) -> (r: Result<char, Error>)
        requires
            self.wf(),
            self.elem == Element::Char,
        ensures
            match r {
                Ok(c) => {
                    &&& self.offset + 4 <= region@.len()
                    &&& is_char_code(u32_at(region@, self.offset as int, self.endianness))
                    &&& c == u32_at(region@, self.offset as int, self.endianness) as char
                },
                Err(e) => {
                    ||| (self.offset + 4 > region@.len() && e == Error::WontBeAbleToRead)
                    ||| (self.offset + 4 <= region@.len() && !is_char_code(
                        u32_at(region@, self.offset as int, self.endianness),
                    ) && e == Error::ConversionError)
                },
            },
    {
        let n = region.len();
        if self.offset > n || 4 > n - self.offset {
            return Err(Error::WontBeAbleToRead);
        }
        let code = read_u32_at(region, self.offset, self.endianness);
        match char_from_u32(code) {
            Some(c) => Ok(c),
            None => Err(Error::ConversionError),
        }
    }

    /// Reads `count` characters, each a 32-bit scalar value in the declared
    /// byte order; fails with the conversion error if any pattern is no
    /// Unicode scalar value.
    pub fn read_n_chars(&self, count: usize, region: &Vec<u8>) -> (r: Result<Vec<char>, Error>)
        requires
            self.wf(),
            self.elem == Element::Char,
        ensures
            match r {
                Ok(v) => {
                    &&& self.read_ok(count as int, region@.len() as int)
                    &&& forall|k: int|
                        0 <= k < count ==> is_char_code(
                            #[trigger] u32_at(region@, self.offset + 4 * k, self.endianness),
                        )
                    &&& v@ == u32s_at(
                        region@,
                        self.offset as int,
                        count as int,
                        self.endianness,
                    ).map_values(|u: u32| u as char)
                },
                Err(e) => {
                    ||| (!self.read_ok(count as int, region@.len() as int) && e
                        == Error::WontBeAbleToRead)
                    ||| (self.read_ok(count as int, region@.len() as int) && e
                        == Error::ConversionError && exists|k: int|
                        0 <= k < count && !is_char_code(
                            #[trigger] u32_at(region@, self.offset + 4 * k, self.endianness),
                        ))
                },
            },
    {
        self.validate_room_for(count)?;
        let n = region.len();
        let total = count * 4;
        if self.offset > n || total > n - self.offset {
            return Err(Error::WontBeAbleToRead);
        }
        let mut v: Vec<char> = Vec::new();
        let mut i: usize = 0;
        while i < count
            invariant
                self.room_for(count as int),
                self.elem == Element::Char,
                region@.len() <= usize::MAX,
                self.offset + 4 * count <= region@.len(),
                0 <= i <= count,
                forall|k: int|
                    0 <= k < i ==> is_char_code(
                        #[trigger] u32_at(region@, self.offset + 4 * k, self.endianness),
                    ),
                v@ =~= u32s_at(region@, self.offset as int, i as int, self.endianness).map_values(
                    |u: u32| u as char,
                ),
            decreases count - i,
        {
            let code = read_u32_at(region, self.offset + 4 * i, self.endianness);
            match char_from_u32(code) {
                Some(c) => {
                    v.push(c);
                },
                None => {
                    proof {
                        assert(!is_char_code(
                            u32_at(region@, self.offset + 4 * (i as int), self.endianness),
                        ));
                    }
                    return Err(Error::ConversionError);
                },
            }
            i = i + 1;
            proof {
                assert(v@ =~= u32s_at(
                    region@,
                    self.offset as int,
                    i as int,
                    self.endianness,
                ).map_values(|u: u32| u as char));
            }
        }
        Ok(v)
    }

    /// Reads the signed 16-bit value under the cursor, applying the declared
    /// byte order.
    pub fn read_i16(&self, region: &Vec<u8>) -> (r: Result<i16, Error>)
        requires
            self.wf(),
            self.elem == Element::Short,
        ensures
            match r {
                Ok(x) => self.offset + 2 <= region@.len() && x == i16_at(
                    region@,
                    self.offset as int,
                    self.endianness,
                ),
                Err(e) => self.offset + 2 > region@.len() && e == Error::WontBeAbleToRead,
            },
    {
        let n = region.len();
        if self.offset > n || 2 > n - self.offset {
            return Err(Error::WontBeAbleToRead);
        }
        let raw = read_u16_at(region, self.offset, self.endianness);
        Ok(
            #[verifier::truncate]
            (raw as i16),
        )
    }

    /// Reads `count` signed 16-bit values laid out back to back.
    pub fn read_n_i16(&self, count: usize, region: &Vec<u8>) -> (r: Result<Vec<i16>, Error>)
        requires
            self.wf(),
            self.elem == Element::Short,
        ensures
            match r {
                Ok(v) => self.read_ok(count as int, region@.len() as int) && v@ == i16s_at(
                    region@,
                    self.offset as int,
                    count as int,
                    self.endianness,
                ),
                Err(e) => !self.read_ok(count as int, region@.len() as int) && e
                    == Error::WontBeAbleToRead,
            },
    {
        self.validate_room_for(count)?;
        let n = region.len();
        let total = count * 2;
        if self.offset > n || total > n - self.offset {
            return Err(Error::WontBeAbleToRead);
        }
        let mut v: Vec<i16> = Vec::new();
        let mut i: usize = 0;
        while i < count
            invariant
                self.room_for(count as int),
                self.elem == Element::Short,
                region@.len() <= usize::MAX,
                self.offset + 2 * count <= region@.len(),
                0 <= i <= count,
                v@ =~= i16s_at(region@, self.offset as int, i as int, self.endianness),
            decreases count - i,
        {
            let raw = read_u16_at(region, self.offset + 2 * i, self.endianness);
            v.push(
                #[verifier::truncate]
                (raw as i16),
            );
            i = i + 1;
            proof {
                assert(v@ =~= i16s_at(region@, self.offset as int, i as int, self.endianness));
            }
        }
        Ok(v)
    }

    /// Reads the signed 32-bit value under the cursor.
    pub fn read_i32(&self, region: &Vec<u8>) -> (r: Result<i32, Error>)
        requires
            self.wf(),
            self.elem == Element::Int,
        ensures
            match r {
                Ok(x) => self.offset + 4 <= region@.len() && x == i32_at(
                    region@,
                    self.offset as int,
                    self.endianness,
                ),
                Err(e) => self.offset + 4 > region@.len() && e == Error::WontBeAbleToRead,
            },
    {
        let n = region.len();
        if self.offset > n || 4 > n - self.offset {
            return Err(Error::WontBeAbleToRead);
        }
        let raw = read_u32_at(region, self.offset, self.endianness);
        Ok(
            #[verifier::truncate]
            (raw as i32),
        )
    }

    /// Reads `count` signed 32-bit values laid out back to back.
    pub fn read_n_i32(&self, count: usize, region: &Vec<u8>) -> (r: Result<Vec<i32>, Error>)
        requires
            self.wf(),
            self.elem == Element::Int,
        ensures
            match r {
                Ok(v) => self.read_ok(count as int, region@.len() as int) && v@ == i32s_at(
                    region@,
                    self.offset as int,
                    count as int,
                    self.endianness,
                ),
                Err(e) => !self.read_ok(count as int, region@.len() as int) && e
                    == Error::WontBeAbleToRead,
            },
    {
        self.validate_room_for(count)?;
        let n = region.len();
        let total = count * 4;
        if self.offset > n || total > n - self.offset {
            return Err(Error::WontBeAbleToRead);
        }
        let mut v: Vec<i32> = Vec::new();
        let mut i: usize = 0;
        while i < count
            invariant
                self.room_for(count as int),
                self.elem == Element::Int,
                region@.len() <= usize::MAX,
                self.offset + 4 * count <= region@.len(),
                0 <= i <= count,
                v@ =~= i32s_at(region@, self.offset as int, i as int, self.endianness),
            decreases count - i,
        {
            let raw = read_u32_at(region, self.offset + 4 * i, self.endianness);
            v.push(
                #[verifier::truncate]
                (raw as i32),
            );
            i = i + 1;
            proof {
                assert(v@ =~= i32s_at(region@, self.offset as int, i as int, self.endianness));
            }
        }
        Ok(v)
    }

    /// Reads the signed 64-bit value under the cursor.
    pub fn read_i64(&self, region: &Vec<u8>) -> (r: Result<i64, Error>)
        requires
            self.wf(),
            self.elem == Element::Long,
        ensures
            match r {
                Ok(x) => self.offset + 8 <= region@.len() && x == i64_at(
                    region@,
                    self.offset as int,
                    self.endianness,
                ),
                Err(e) => self.offset + 8 > region@.len() && e == Error::WontBeAbleToRead,
            },
    {
        let n = region.len();
        if self.offset > n || 8 > n - self.offset {
            return Err(Error::WontBeAbleToRead);
        }
        let raw = read_u64_at(region, self.offset, self.endianness);
        Ok(
            #[verifier::truncate]
            (raw as i64),
        )
    }

    /// Reads `count` signed 64-bit values laid out back to back.
    pub fn read_n_i64(&self, count: usize, region: &Vec<u8>) -> (r: Result<Vec<i64>, Error>)
        requires
            self.wf(),
            self.elem == Element::Long,
        ensures
            match r {
                Ok(v) => self.read_ok(count as int, region@.len() as int) && v@ == i64s_at(
                    region@,
                    self.offset as int,
                    count as int,
                    self.endianness,
                ),
                Err(e) => !self.read_ok(count as int, region@.len() as int) && e
                    == Error::WontBeAbleToRead,
            },
    {
        self.validate_room_for(count)?;
        let n = region.len();
        let total = count * 8;
        if self.offset > n || total > n - self.offset {
            return Err(Error::WontBeAbleToRead);
        }
        let mut v: Vec<i64> = Vec::new();
        let mut i: usize = 0;
        while i < count
            invariant
                self.room_for(count as int),
                self.elem == Element::Long,
                region@.len() <= usize::MAX,
                self.offset + 8 * count <= region@.len(),
                0 <= i <= count,
                v@ =~= i64s_at(region@, self.offset as int, i as int, self.endianness),
            decreases count - i,
        {
            let raw = read_u64_at(region, self.offset + 8 * i, self.endianness);
            v.push(
                #[verifier::truncate]
                (raw as i64),
            );
            i = i + 1;
            proof {
                assert(v@ =~= i64s_at(region@, self.offset as int, i as int, self.endianness));
            }
        }
        Ok(v)
    }

    /// Reads the four bytes under the cursor as the bit pattern of a 32-bit
    /// floating value, applying the declared byte order. The reinterpretation
    /// of the pattern as a floating number happens outside the decoding layer.
    pub fn read_f32_bits(&self, region: &Vec<u8>) -> (r: Result<u32, Error>)
        requires
            self.wf(),
            self.elem == Element::Float,
        ensures
            match r {
                Ok(x) => self.offset + 4 <= region@.len() && x == u32_at(
                    region@,
                    self.offset as int,
                    self.endianness,
                ),
                Err(e) => self.offset + 4 > region@.len() && e == Error::WontBeAbleToRead,
            },
    {
        let n = region.len();
        if self.offset > n || 4 > n - self.offset {
            return Err(Error::WontBeAbleToRead);
        }
        Ok(read_u32_at(region, self.offset, self.endianness))
    }

    /// Reads `count` 32-bit floating bit patterns laid out back to back.
    pub fn read_n_f32_bits(&self, count: usize, region: &Vec<u8>) -> (r: Result<Vec<u32>, Error>)
        requires
            self.wf(),
            self.elem == Element::Float,
        ensures
            match r {
                Ok(v) => self.read_ok(count as int, region@.len() as int) && v@ == u32s_at(
                    region@,
                    self.offset as int,
                    count as int,
                    self.endianness,
                ),
                Err(e) => !self.read_ok(count as int, region@.len() as int) && e
                    == Error::WontBeAbleToRead,
            },
    {
        self.validate_room_for(count)?;
        let n = region.len();
        let total = count * 4;
        if self.offset > n || total > n - self.offset {
            return Err(Error::WontBeAbleToRead);
        }
        let mut v: Vec<u32> = Vec::new();
        let mut i: usize = 0;
        while i < count
            invariant
                self.room_for(count as int),
                self.elem == Element::Float,
                region@.len() <= usize::MAX,
                self.offset + 4 * count <= region@.len(),
                0 <= i <= count,
                v@ =~= u32s_at(region@, self.offset as int, i as int, self.endianness),
            decreases count - i,
        {
            v.push(read_u32_at(region, self.offset + 4 * i, self.endianness));
            i = i + 1;
            proof {
                assert(v@ =~= u32s_at(region@, self.offset as int, i as int, self.endianness));
            }
        }
        Ok(v)
    }

    /// Reads the eight bytes under the cursor as the bit pattern of a 64-bit
    /// floating value.
    pub fn read_f64_bits(&self, region: &Vec<u8>) -> (r: Result<u64, Error>)
        requires
            self.wf(),
            self.elem == Element::Double,
        ensures
            match r {
                Ok(x) => self.offset + 8 <= region@.len() && x == u64_at(
                    region@,
                    self.offset as int,
                    self.endianness,
                ),
                Err(e) => self.offset + 8 > region@.len() && e == Error::WontBeAbleToRead,
            },
    {
        let n = region.len();
        if self.offset > n || 8 > n - self.offset {
            return Err(Error::WontBeAbleToRead);
        }
        Ok(read_u64_at(region, self.offset, self.endianness))
    }

    /// Reads `count` 64-bit floating bit patterns laid out back to back.
    pub fn read_n_f64_bits(&self, count: usize, region: &Vec<u8>) -> (r: Result<Vec<u64>, Error>)
        requires
            self.wf(),
            self.elem == Element::Double,
        ensures
            match r {
                Ok(v) => self.read_ok(count as int, region@.len() as int) && v@ == u64s_at(
                    region@,
                    self.offset as int,
                    count as int,
                    self.endianness,
                ),
                Err(e) => !self.read_ok(count as int, region@.len() as int) && e
                    == Error::WontBeAbleToRead,
            },
    {
        self.validate_room_for(count)?;
        let n = region.len();
        let total = count * 8;
        if self.offset > n || total > n - self.offset {
            return Err(Error::WontBeAbleToRead);
        }
        let mut v: Vec<u64> = Vec::new();
        let mut i: usize = 0;
        while i < count
            invariant
                self.room_for(count as int),
                self.elem == Element::Double,
                region@.len() <= usize::MAX,
                self.offset + 8 * count <= region@.len(),
                0 <= i <= count,
                v@ =~= u64s_at(region@, self.offset as int, i as int, self.endianness),
            decreases count - i,
        {
            v.push(read_u64_at(region, self.offset + 8 * i, self.endianness));
            i = i + 1;
            proof {
                assert(v@ =~= u64s_at(region@, self.offset as int, i as int, self.endianness));
            }
        }
        Ok(v)
    }
}

/// A read succeeds exactly when the budget has room for what it asks, as long
/// as the region covers the cursor's reachable range: the region's length
/// never decides otherwise.
pub proof fn lemma_read_succeeds_iff_room(p: SafishPointer, count: int, region_len: int)
    requires
        p.covered_by(region_len),
        0 <= count,
    ensures
        p.read_ok(count, region_len) <==> p.room_for(count),
{
}

/// Creation succeeds exactly when the budget has room for one element, for
/// every offset that keeps the range within the address space — the boundary
/// lies exactly at equality of budget and element size.
pub proof fn lemma_new_succeeds_iff(
    elem: Element,
    offset: int,
    max_byte_offset: int,
    endianness: Endianness,
)
    requires
        0 <= offset,
        offset + max_byte_offset <= usize::MAX,
    ensures
        SafishPointer::spec_new(elem, offset, max_byte_offset, endianness) is Ok
            <==> max_byte_offset >= elem.spec_size(),
{
}

/// Advancing succeeds exactly when the budget has room for one more element
/// at the new position.
pub proof fn lemma_add_succeeds_iff(p: SafishPointer, offset: int)
    requires
        0 <= offset,
    ensures
        p.spec_add(offset) is Ok <==> p.max_byte_offset >= (offset + 1) * p.elem.spec_size(),
{
}

} // verus!
