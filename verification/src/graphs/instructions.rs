//! The header of a graph image: a magic number, the number of libraries the
//! graph loads, and their names.

use vstd::prelude::*;
use vstd::string::*;
use vstd::utf8::encode_utf8;

verus! {

/// The operations of a graph image.
#[derive(Debug)]
pub enum GraphILOpCodes {
    /// Load the library of this name.
    LoadLibrary(String),
    /// Invoke a function of a library: library, function, argument.
    InvokeLibrary(String, String, String),
}

/// Collects what the header of a graph image holds.
#[derive(Debug)]
pub struct InMemoryGraphImageBuilder {
    pub magic: [u8; 7],
    /// The library names, each already closed by a NUL character.
    pub libraries: Vec<String>,
}

/// The seven bytes that open every image: `GRAPHIL` in ASCII.
pub open spec fn image_magic() -> Seq<u8> {
    seq![0x47u8, 0x52u8, 0x41u8, 0x50u8, 0x48u8, 0x49u8, 0x4cu8]
}

/// A library name as the image stores it: the name, then a NUL character.
pub open spec fn terminated(name: Seq<char>) -> Seq<char> {
    name.push('\0')
}

/// The UTF-8 bytes of the stored names, one name after the other.
pub open spec fn library_bytes(libraries: Seq<String>) -> Seq<u8>
    decreases libraries.len(),
{
    if libraries.len() == 0 {
        Seq::empty()
    } else {
        library_bytes(libraries.drop_last()) + encode_utf8(libraries.last()@)
    }
}

/// The number of libraries as the header records it: in 32 bits, so a
/// count beyond that wraps around.
pub open spec fn library_count(libraries: Seq<String>) -> u32 {
    (libraries.len() % 0x1_0000_0000) as u32
}

/// The four bytes of a 32-bit number, lowest byte first.
pub open spec fn le_bytes(number: u32) -> Seq<u8> {
    seq![
        (number % 0x100) as u8,
        (number / 0x100 % 0x100) as u8,
        (number / 0x1_0000 % 0x100) as u8,
        (number / 0x100_0000) as u8,
    ]
}

/// The header: the magic, the count in four little-endian bytes, the names.
pub open spec fn image_header(magic: Seq<u8>, libraries: Seq<String>) -> Seq<u8> {
    magic + le_bytes(library_count(libraries)) + library_bytes(libraries)
}

impl InMemoryGraphImageBuilder {
    /// A builder with the magic number and no library.
    pub fn new() -> (builder: Self)
        ensures
            builder.magic@ == image_magic(),
            builder.libraries@.len() == 0,
    {
        let builder = InMemoryGraphImageBuilder {
            magic: [0x47u8, 0x52u8, 0x41u8, 0x50u8, 0x48u8, 0x49u8, 0x4cu8],
            libraries: Vec::new(),
        };
        assert(builder.magic@ =~= image_magic());
        builder
    }

    /// Records one more library. The name is stored with a NUL character
    /// behind it.
    pub fn add_library(&mut self, lib_name: &str) -> (builder: &mut Self)
        ensures
            builder.magic == old(self).magic,
            builder.libraries@.len() == old(self).libraries@.len() + 1,
            builder.libraries@.drop_last() == old(self).libraries@,
            builder.libraries@.last()@ == terminated(lib_name@),
            *final(self) == *final(builder),
    {
        let mut stored: String = lib_name.to_owned();
        proof {
            reveal_strlit("\0");
        }
        stored.append("\0");
        assert(stored@ =~= terminated(lib_name@));
        self.libraries.push(stored);
        assert(self.libraries@.drop_last() =~= old(self).libraries@);
        self
    }

    /// The header bytes for what was collected.
    pub fn to_binary(&self) -> (binary: Vec<u8>)
        ensures
            binary@ == image_header(self.magic@, self.libraries@),
    {
        let mut binary: Vec<u8> = Vec::with_capacity(128);
        binary.extend_from_slice(self.magic.as_slice());
        let wrapped: u64 = (self.libraries.len() as u64) % 0x1_0000_0000u64;
        let lib_count: u32 = wrapped as u32;
        let ghost header = binary@;
        binary.push((lib_count % 0x100) as u8);
        binary.push((lib_count / 0x100 % 0x100) as u8);
        binary.push((lib_count / 0x1_0000 % 0x100) as u8);
        binary.push((lib_count / 0x100_0000) as u8);
        assert(header =~= self.magic@);
        assert(binary@ =~= self.magic@ + le_bytes(library_count(self.libraries@)));
        let mut i: usize = 0;
        while i < self.libraries.len()
            invariant
                i <= self.libraries.len(),
                binary@ == self.magic@ + le_bytes(library_count(self.libraries@))
                    + library_bytes(self.libraries@.take(i as int)),
            decreases self.libraries.len() - i,
        {
            let ghost before = binary@;
            binary.extend_from_slice(self.libraries[i].as_str().as_bytes());
            proof {
                assert(self.libraries@.take(i + 1).drop_last() == self.libraries@.take(i as int));
                assert(binary@ =~= before + encode_utf8(self.libraries@[i as int]@));
            }
            i += 1;
        }
        assert(self.libraries@.take(i as int) == self.libraries@);
        binary
    }
}

} // verus!
