//! Decoding of a few CodeView type records and of the bit fields within them.

use vstd::prelude::*;
use crate::le::{decode_u16, le_u16, le_u32};
use crate::parser::{Parser, ParserError};
use crate::types::TypeIndex;

verus! {

/// Whether a method attribute introduces a new virtual function slot: the method property
/// (bits 2 to 5) is "introducing virtual" (4) or "pure introducing virtual" (6).
pub open spec fn spec_introduces_virtual(attr: u16) -> bool {
    (attr as int / 4) % 16 == 4 || (attr as int / 4) % 16 == 6
}

/// Indicates whether a method type introduces a new virtual function slot.
///
/// `attr` is the `attr` field of a `LF_ONEMETHOD`, etc. record.
pub fn introduces_virtual(attr: u16) -> (b: bool)
    ensures
        b == spec_introduces_virtual(attr),
{
    let prop = (attr >> 2) & 0xf;
    assert(prop == (attr as int / 4) % 16) by (bit_vector)
        requires
            prop == (attr >> 2) & 0xf,
    ;
    prop == 4 || prop == 6
}

/// The attribute bits of a pointer type record (`LF_POINTER`).
#[derive(Copy, Clone, Debug, PartialEq, Eq, Structural)]
pub struct PointerFlags(pub u32);

/// The pointer mode (bits 5 to 7): 0 is a plain pointer, 1 an lvalue reference, 2 a pointer to
/// data member, 3 a pointer to member function, 4 an rvalue reference.
pub open spec fn spec_pointer_mode(bits: u32) -> u32 {
    ((bits as int / 32) % 8) as u32
}

impl PointerFlags {
    /// Wraps the raw attribute bits.
    pub fn from_bits(bits: u32) -> (f: Self)
        ensures
            f.0 == bits,
    {
        Self(bits)
    }

    /// The pointer mode field.
    pub fn mode(&self) -> (m: u32)
        ensures
            m == spec_pointer_mode(self.0),
    {
        let bits = self.0;
        let m = (bits >> 5) & 7;
        assert(m == (bits as int / 32) % 8) by (bit_vector)
            requires
                m == (bits >> 5) & 7,
        ;
        m
    }
}

/// The properties of a class, structure, union or enum, as stored in the record.
#[derive(Copy, Clone, Debug, PartialEq, Eq, Structural)]
pub struct UdtPropertiesLe(pub u16);

impl UdtPropertiesLe {
    /// The property bits.
    pub fn get(&self) -> (v: u16)
        ensures
            v == self.0,
    {
        self.0
    }
}

/// The fixed part of a `LF_VTSHAPE` record.
#[derive(Copy, Clone, Debug, PartialEq, Eq, Structural)]
pub struct VTableShapeFixed {
    /// The number of entries in the virtual function table.
    pub count: u16,
}

/// A decoded `LF_VTSHAPE` record.
#[derive(Clone, Debug)]
pub struct VTableShapeData<'a> {
    /// The number of entries in the virtual function table.
    pub count: u16,
    /// The descriptor nibbles, packed two per byte.
    pub descriptors: &'a [u8],
}

/// The encoded length of the method list entry at the start of `s`: attribute, padding, type,
/// and a vtable offset for methods that introduce a virtual slot. `None` when `s` is too short.
pub open spec fn method_list_entry_len(s: Seq<u8>) -> Option<int> {
    if s.len() < 2 {
        None
    } else {
        let n = if spec_introduces_virtual(le_u16(s) as u16) {
            12int
        } else {
            8int
        };
        if n <= s.len() {
            Some(n)
        } else {
            None
        }
    }
}

/// One entry of a `LF_METHODLIST` record.
#[derive(Copy, Clone, Debug, PartialEq, Eq, Structural)]
pub struct MethodListItem {
    /// The method attributes.
    pub attr: u16,
    /// The method's type.
    pub ty: TypeIndex,
    /// The offset in the virtual function table, for methods that introduce a virtual slot.
    pub vtab_offset: Option<u32>,
}

/// The payload of a `LF_METHODLIST` record: a repeated sequence of entries, each an attribute
/// (`u16`), padding (`u16`), a type index (`u32`), and a vtable offset (`u32`) that is present
/// only when the attribute says that the method introduces a virtual slot.
#[derive(Clone, Debug)]
pub struct MethodListData<'a> {
    /// The bytes of the entries.
    pub bytes: &'a [u8],
}

/// Iterates the entries of a `LF_METHODLIST` record.
pub struct MethodList<'a> {
    /// The entries that have not been read.
    pub rest: &'a [u8],
}

impl<'a> MethodList<'a> {
    /// Starts reading the payload of a `LF_METHODLIST` record.
    pub fn parse(record_data: &'a [u8]) -> (r: Result<Self, ParserError>)
        ensures
            r matches Ok(m) && m.rest@ == record_data@,
    {
        Ok(Self { rest: record_data })
    }

    /// Reads the next entry. `Ok(None)` at the end of the list; an error when the entry is
    /// truncated, in which case the list is left as it was.
    pub fn next(&mut self) -> (r: Result<Option<MethodListItem>, ParserError>)
        ensures
            old(self).rest@.len() == 0 ==> r == Ok::<Option<MethodListItem>, ParserError>(None)
                && final(self).rest@ == old(self).rest@,
            old(self).rest@.len() > 0 ==> (r is Ok <==> method_list_entry_len(old(self).rest@) is Some),
            r matches Ok(Some(item)) ==> {
                let s = old(self).rest@;
                let n = method_list_entry_len(s)->0;
                &&& item.attr == le_u16(s)
                &&& item.ty.0 == le_u32(s.skip(4))
                &&& item.vtab_offset == (if n == 12 {
                    Some(le_u32(s.skip(8)) as u32)
                } else {
                    None::<u32>
                })
                &&& final(self).rest@ == s.skip(n)
            },
            r is Err ==> final(self).rest@ == old(self).rest@,
    {
        if self.rest.len() == 0 {
            return Ok(None);
        }
        let mut p = Parser::new(self.rest);
        let attr = p.u16()?;
        let _padding = p.u16()?;
        let ty = p.type_index()?;
        let vtab_offset = if introduces_virtual(attr) {
            Some(p.u32()?)
        } else {
            None
        };
        proof {
            assert(old(self).rest@.skip(2).skip(2) =~= old(self).rest@.skip(4));
            assert(old(self).rest@.skip(4).skip(4) =~= old(self).rest@.skip(8));
            if old(self).rest@.len() >= 12 {
                assert(old(self).rest@.skip(8).skip(4) =~= old(self).rest@.skip(12));
            }
        }
        self.rest = p.into_rest();
        Ok(Some(MethodListItem { attr, ty, vtab_offset }))
    }
}

/// Identifies indexes into `BuildInfo::args`.
#[derive(Copy, Clone, Eq, PartialEq, Structural, Debug)]
pub enum BuildInfoIndex {
    /// The current directory of the build.
    CurrentDirectory,
    /// The build tool, such as `cl.exe`.
    BuildTool,
    /// The source file.
    SourceFile,
    /// The PDB that the compiler wrote.
    ProgramDatabaseFile,
    /// The command-line arguments.
    CommandArguments,
}

/// The position of a `BuildInfoIndex` among the arguments of a build info record.
pub open spec fn build_info_position(index: BuildInfoIndex) -> int {
    match index {
        BuildInfoIndex::CurrentDirectory => 0,
        BuildInfoIndex::BuildTool => 1,
        BuildInfoIndex::SourceFile => 2,
        BuildInfoIndex::ProgramDatabaseFile => 3,
        BuildInfoIndex::CommandArguments => 4,
    }
}

impl BuildInfoIndex {
    /// The position of this index among the arguments of a build info record.
    pub fn position(self) -> (i: usize)
        ensures
            i == build_info_position(self),
    {
        match self {
            BuildInfoIndex::CurrentDirectory => 0,
            BuildInfoIndex::BuildTool => 1,
            BuildInfoIndex::SourceFile => 2,
            BuildInfoIndex::ProgramDatabaseFile => 3,
            BuildInfoIndex::CommandArguments => 4,
        }
    }

    /// A short name for the argument.
    pub fn short_name(self) -> (s: &'static str)
        ensures
            s@ == (match self {
                BuildInfoIndex::CurrentDirectory => "cwd"@,
                BuildInfoIndex::BuildTool => "tool"@,
                BuildInfoIndex::SourceFile => "source_file"@,
                BuildInfoIndex::ProgramDatabaseFile => "pdb"@,
                BuildInfoIndex::CommandArguments => "args"@,
            }),
    {
        match self {
            BuildInfoIndex::CurrentDirectory => "cwd",
            BuildInfoIndex::BuildTool => "tool",
            BuildInfoIndex::SourceFile => "source_file",
            BuildInfoIndex::ProgramDatabaseFile => "pdb",
            BuildInfoIndex::CommandArguments => "args",
        }
    }
}

/// A decoded `LF_SUBSTR_LIST` record: the item ids of the substrings.
#[derive(Clone, Debug)]
pub struct SubStrList {
    /// The substring ids.
    pub ids: Vec<u32>,
}

impl SubStrList {
    /// Decodes the payload of a `LF_SUBSTR_LIST` record: a `u32` count and that many ids.
    pub fn from_parser(p: &mut Parser) -> (r: Result<Self, ParserError>)
        ensures
            r is Ok <==> 4 <= old(p)@.len() && 4 + 4 * le_u32(old(p)@) <= old(p)@.len(),
            r matches Ok(l) ==> l.ids@.len() == le_u32(old(p)@) && (forall|i: int|
                0 <= i < l.ids@.len() ==> #[trigger] l.ids@[i] == le_u32(old(p)@.skip(4 + 4 * i))),
    {
        let saved = p.peek_rest();
        let n = p.u32()?;
        match p.u32_array(n as usize) {
            Ok(ids) => {
                proof {
                    assert forall|i: int| 0 <= i < ids@.len() implies #[trigger] ids@[i] == le_u32(
                        old(p)@.skip(4 + 4 * i),
                    ) by {
                        assert(old(p)@.skip(4).skip(4 * i) =~= old(p)@.skip(4 + 4 * i));
                    }
                }
                Ok(Self { ids })
            },
            Err(e) => {
                p.bytes = saved;
                Err(e)
            },
        }
    }
}

/// A decoded `LF_BUILDINFO` record: the item ids of its arguments.
#[derive(Clone, Debug)]
pub struct BuildInfo {
    /// The argument ids.
    pub args: Vec<u32>,
}

impl BuildInfo {
    /// Decodes the payload of a `LF_BUILDINFO` record: a `u16` count and that many ids.
    pub fn from_parser(p: &mut Parser) -> (r: Result<Self, ParserError>)
        ensures
            r is Ok <==> 2 <= old(p)@.len() && 2 + 4 * le_u16(old(p)@) <= old(p)@.len(),
            r matches Ok(b) ==> b.args@.len() == le_u16(old(p)@) && (forall|i: int|
                0 <= i < b.args@.len() ==> #[trigger] b.args@[i] == le_u32(old(p)@.skip(2 + 4 * i))),
    {
        let saved = p.peek_rest();
        let n = p.u16()?;
        match p.u32_array(n as usize) {
            Ok(args) => {
                proof {
                    assert forall|i: int| 0 <= i < args@.len() implies #[trigger] args@[i]
                        == le_u32(old(p)@.skip(2 + 4 * i)) by {
                        assert(old(p)@.skip(2).skip(4 * i) =~= old(p)@.skip(2 + 4 * i));
                    }
                }
                Ok(Self { args })
            },
            Err(e) => {
                p.bytes = saved;
                Err(e)
            },
        }
    }

    /// Gets one argument of the build, if the record has it.
    pub fn arg(&self, index: BuildInfoIndex) -> (r: Option<u32>)
        ensures
            build_info_position(index) < self.args@.len() ==> r == Some(
                self.args@[build_info_position(index)],
            ),
            build_info_position(index) >= self.args@.len() ==> r is None,
    {
        let i = index.position();
        if i < self.args.len() {
            Some(self.args[i])
        } else {
            None
        }
    }
}

} // verus!
