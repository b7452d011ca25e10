//! Names of COFF relocation types.

use vstd::prelude::*;

verus! {

/// Identifies the target machine of a COFF image.
#[allow(non_camel_case_types)]
#[derive(Copy, Clone, Debug, PartialEq, Eq, Structural)]
pub struct IMAGE_FILE_MACHINE(pub u16);

/// Intel 386.
pub const IMAGE_FILE_MACHINE_I386: u16 = 0x014c;
/// x64.
pub const IMAGE_FILE_MACHINE_AMD64: u16 = 0x8664;
/// ARM64 little endian.
pub const IMAGE_FILE_MACHINE_ARM64: u16 = 0xaa64;

pub const IMAGE_REL_I386_ABSOLUTE: u16 = 0x0000;
pub const IMAGE_REL_I386_DIR16: u16 = 0x0001;
pub const IMAGE_REL_I386_REL16: u16 = 0x0002;
pub const IMAGE_REL_I386_DIR32: u16 = 0x0006;
pub const IMAGE_REL_I386_DIR32NB: u16 = 0x0007;
pub const IMAGE_REL_I386_SEG12: u16 = 0x0009;
pub const IMAGE_REL_I386_SECTION: u16 = 0x000A;
pub const IMAGE_REL_I386_SECREL: u16 = 0x000B;
pub const IMAGE_REL_I386_TOKEN: u16 = 0x000C;
pub const IMAGE_REL_I386_SECREL7: u16 = 0x000D;
pub const IMAGE_REL_I386_REL32: u16 = 0x0014;
pub const IMAGE_REL_ARM64_ABSOLUTE: u16 = 0x0000;
pub const IMAGE_REL_ARM64_ADDR32: u16 = 0x0001;
pub const IMAGE_REL_ARM64_ADDR32NB: u16 = 0x0002;
pub const IMAGE_REL_ARM64_BRANCH26: u16 = 0x0003;
pub const IMAGE_REL_ARM64_PAGEBASE_REL21: u16 = 0x0004;
pub const IMAGE_REL_ARM64_REL21: u16 = 0x0005;
pub const IMAGE_REL_ARM64_PAGEOFFSET_12A: u16 = 0x0006;
pub const IMAGE_REL_ARM64_PAGEOFFSET_12L: u16 = 0x0007;
pub const IMAGE_REL_ARM64_SECREL: u16 = 0x0008;
pub const IMAGE_REL_ARM64_SECREL_LOW12A: u16 = 0x0009;
pub const IMAGE_REL_ARM64_SECREL_HIGH12A: u16 = 0x000A;
pub const IMAGE_REL_ARM64_SECREL_LOW12L: u16 = 0x000B;
pub const IMAGE_REL_ARM64_TOKEN: u16 = 0x000C;
pub const IMAGE_REL_ARM64_SECTION: u16 = 0x000D;
pub const IMAGE_REL_ARM64_ADDR64: u16 = 0x000E;
pub const IMAGE_REL_ARM64_BRANCH19: u16 = 0x000F;
pub const IMAGE_REL_AMD64_ABSOLUTE: u16 = 0x0000;
pub const IMAGE_REL_AMD64_ADDR64: u16 = 0x0001;
pub const IMAGE_REL_AMD64_ADDR32: u16 = 0x0002;
pub const IMAGE_REL_AMD64_ADDR32NB: u16 = 0x0003;
pub const IMAGE_REL_AMD64_REL32: u16 = 0x0004;
pub const IMAGE_REL_AMD64_REL32_1: u16 = 0x0005;
pub const IMAGE_REL_AMD64_REL32_2: u16 = 0x0006;
pub const IMAGE_REL_AMD64_REL32_3: u16 = 0x0007;
pub const IMAGE_REL_AMD64_REL32_4: u16 = 0x0008;
pub const IMAGE_REL_AMD64_REL32_5: u16 = 0x0009;
pub const IMAGE_REL_AMD64_SECTION: u16 = 0x000A;
pub const IMAGE_REL_AMD64_SECREL: u16 = 0x000B;
pub const IMAGE_REL_AMD64_SECREL7: u16 = 0x000C;
pub const IMAGE_REL_AMD64_TOKEN: u16 = 0x000D;
pub const IMAGE_REL_AMD64_SREL32: u16 = 0x000E;
pub const IMAGE_REL_AMD64_PAIR: u16 = 0x000F;
pub const IMAGE_REL_AMD64_SSPAN32: u16 = 0x0010;
pub const IMAGE_REL_AMD64_EHANDLER: u16 = 0x0011;
pub const IMAGE_REL_AMD64_IMPORT_BR: u16 = 0x0012;
pub const IMAGE_REL_AMD64_IMPORT_CALL: u16 = 0x0013;
pub const IMAGE_REL_AMD64_CFG_BR: u16 = 0x0014;
pub const IMAGE_REL_AMD64_CFG_BR_REX: u16 = 0x0015;
pub const IMAGE_REL_AMD64_CFG_CALL: u16 = 0x0016;
pub const IMAGE_REL_AMD64_INDIR_BR: u16 = 0x0017;
pub const IMAGE_REL_AMD64_INDIR_BR_REX: u16 = 0x0018;
pub const IMAGE_REL_AMD64_INDIR_CALL: u16 = 0x0019;
pub const IMAGE_REL_AMD64_INDIR_BR_SWITCHTABLE_FIRST: u16 = 0x0020;
pub const IMAGE_REL_AMD64_INDIR_BR_SWITCHTABLE_LAST: u16 = 0x002F;

/// The name that `reloc_type_str_i386` gives to each relocation type it knows.
pub open spec fn spec_reloc_type_str_i386(reloc: u16) -> Option<&'static str> {
    match reloc {
        0x0000 => Some("IMAGE_REL_I386_ABSOLUTE"),
        0x0001 => Some("IMAGE_REL_I386_DIR16"),
        0x0002 => Some("IMAGE_REL_I386_REL16"),
        0x0006 => Some("IMAGE_REL_I386_DIR32"),
        0x0007 => Some("IMAGE_REL_I386_DIR32NB"),
        0x0009 => Some("IMAGE_REL_I386_SEG12"),
        0x000a => Some("IMAGE_REL_I386_SECTION"),
        0x000b => Some("IMAGE_REL_I386_SECREL"),
        0x000c => Some("IMAGE_REL_I386_TOKEN"),
        0x000d => Some("IMAGE_REL_I386_SECREL7"),
        0x0014 => Some("IMAGE_REL_I386_REL32"),
        _ => None,
    }
}

/// Names a relocation type.
pub fn reloc_type_str_i386(reloc: u16) -> (r: Option<&'static str>)
    ensures
        r == spec_reloc_type_str_i386(reloc),
{
    match reloc {
        0x0000 => Some("IMAGE_REL_I386_ABSOLUTE"),
        0x0001 => Some("IMAGE_REL_I386_DIR16"),
        0x0002 => Some("IMAGE_REL_I386_REL16"),
        0x0006 => Some("IMAGE_REL_I386_DIR32"),
        0x0007 => Some("IMAGE_REL_I386_DIR32NB"),
        0x0009 => Some("IMAGE_REL_I386_SEG12"),
        0x000a => Some("IMAGE_REL_I386_SECTION"),
        0x000b => Some("IMAGE_REL_I386_SECREL"),
        0x000c => Some("IMAGE_REL_I386_TOKEN"),
        0x000d => Some("IMAGE_REL_I386_SECREL7"),
        0x0014 => Some("IMAGE_REL_I386_REL32"),
        _ => None,
    }
}

/// The name that `reloc_type_str_short_i386` gives to each relocation type it knows.
pub open spec fn spec_reloc_type_str_short_i386(reloc: u16) -> Option<&'static str> {
    match reloc {
        0x0000 => Some("ABSOLUTE"),
        0x0001 => Some("DIR16"),
        0x0002 => Some("REL16"),
        0x0006 => Some("DIR32"),
        0x0007 => Some("DIR32NB"),
        0x0009 => Some("SEG12"),
        0x000a => Some("SECTION"),
        0x000b => Some("SECREL"),
        0x000c => Some("TOKEN"),
        0x000d => Some("SECREL7"),
        0x0014 => Some("REL32"),
        _ => None,
    }
}

/// Names a relocation type.
pub fn reloc_type_str_short_i386(reloc: u16) -> (r: Option<&'static str>)
    ensures
        r == spec_reloc_type_str_short_i386(reloc),
{
    match reloc {
        0x0000 => Some("ABSOLUTE"),
        0x0001 => Some("DIR16"),
        0x0002 => Some("REL16"),
        0x0006 => Some("DIR32"),
        0x0007 => Some("DIR32NB"),
        0x0009 => Some("SEG12"),
        0x000a => Some("SECTION"),
        0x000b => Some("SECREL"),
        0x000c => Some("TOKEN"),
        0x000d => Some("SECREL7"),
        0x0014 => Some("REL32"),
        _ => None,
    }
}

/// The name that `reloc_type_str_arm64` gives to each relocation type it knows.
pub open spec fn spec_reloc_type_str_arm64(reloc: u16) -> Option<&'static str> {
    match reloc {
        0x0000 => Some("IMAGE_REL_ARM64_ABSOLUTE"),
        0x0001 => Some("IMAGE_REL_ARM64_ADDR32"),
        0x0002 => Some("IMAGE_REL_ARM64_ADDR32NB"),
        0x0003 => Some("IMAGE_REL_ARM64_BRANCH26"),
        0x0004 => Some("IMAGE_REL_ARM64_PAGEBASE_REL21"),
        0x0005 => Some("IMAGE_REL_ARM64_REL21"),
        0x0006 => Some("IMAGE_REL_ARM64_PAGEOFFSET_12A"),
        0x0007 => Some("IMAGE_REL_ARM64_PAGEOFFSET_12L"),
        0x0008 => Some("IMAGE_REL_ARM64_SECREL"),
        0x0009 => Some("IMAGE_REL_ARM64_SECREL_LOW12A"),
        0x000a => Some("IMAGE_REL_ARM64_SECREL_HIGH12A"),
        0x000b => Some("IMAGE_REL_ARM64_SECREL_LOW12L"),
        0x000c => Some("IMAGE_REL_ARM64_TOKEN"),
        0x000d => Some("IMAGE_REL_ARM64_SECTION"),
        0x000e => Some("IMAGE_REL_ARM64_ADDR64"),
        0x000f => Some("IMAGE_REL_ARM64_BRANCH19"),
        _ => None,
    }
}

/// Names a relocation type.
pub fn reloc_type_str_arm64(reloc: u16) -> (r: Option<&'static str>)
    ensures
        r == spec_reloc_type_str_arm64(reloc),
{
    match reloc {
        0x0000 => Some("IMAGE_REL_ARM64_ABSOLUTE"),
        0x0001 => Some("IMAGE_REL_ARM64_ADDR32"),
        0x0002 => Some("IMAGE_REL_ARM64_ADDR32NB"),
        0x0003 => Some("IMAGE_REL_ARM64_BRANCH26"),
        0x0004 => Some("IMAGE_REL_ARM64_PAGEBASE_REL21"),
        0x0005 => Some("IMAGE_REL_ARM64_REL21"),
        0x0006 => Some("IMAGE_REL_ARM64_PAGEOFFSET_12A"),
        0x0007 => Some("IMAGE_REL_ARM64_PAGEOFFSET_12L"),
        0x0008 => Some("IMAGE_REL_ARM64_SECREL"),
        0x0009 => Some("IMAGE_REL_ARM64_SECREL_LOW12A"),
        0x000a => Some("IMAGE_REL_ARM64_SECREL_HIGH12A"),
        0x000b => Some("IMAGE_REL_ARM64_SECREL_LOW12L"),
        0x000c => Some("IMAGE_REL_ARM64_TOKEN"),
        0x000d => Some("IMAGE_REL_ARM64_SECTION"),
        0x000e => Some("IMAGE_REL_ARM64_ADDR64"),
        0x000f => Some("IMAGE_REL_ARM64_BRANCH19"),
        _ => None,
    }
}

/// The name that `reloc_type_str_short_arm64` gives to each relocation type it knows.
pub open spec fn spec_reloc_type_str_short_arm64(reloc: u16) -> Option<&'static str> {
    match reloc {
        0x0000 => Some("ABSOLUTE"),
        0x0001 => Some("ADDR32"),
        0x0002 => Some("ADDR32NB"),
        0x0003 => Some("BRANCH26"),
        0x0004 => Some("PAGEBASE_REL21"),
        0x0005 => Some("REL21"),
        0x0006 => Some("PAGEOFFSET_12A"),
        0x0007 => Some("PAGEOFFSET_12L"),
        0x0008 => Some("SECREL"),
        0x0009 => Some("SECREL_LOW12A"),
        0x000a => Some("SECREL_HIGH12A"),
        0x000b => Some("SECREL_LOW12L"),
        0x000c => Some("TOKEN"),
        0x000d => Some("SECTION"),
        0x000e => Some("ADDR64"),
        0x000f => Some("BRANCH19"),
        _ => None,
    }
}

/// Names a relocation type.
pub fn reloc_type_str_short_arm64(reloc: u16) -> (r: Option<&'static str>)
    ensures
        r == spec_reloc_type_str_short_arm64(reloc),
{
    match reloc {
        0x0000 => Some("ABSOLUTE"),
        0x0001 => Some("ADDR32"),
        0x0002 => Some("ADDR32NB"),
        0x0003 => Some("BRANCH26"),
        0x0004 => Some("PAGEBASE_REL21"),
        0x0005 => Some("REL21"),
        0x0006 => Some("PAGEOFFSET_12A"),
        0x0007 => Some("PAGEOFFSET_12L"),
        0x0008 => Some("SECREL"),
        0x0009 => Some("SECREL_LOW12A"),
        0x000a => Some("SECREL_HIGH12A"),
        0x000b => Some("SECREL_LOW12L"),
        0x000c => Some("TOKEN"),
        0x000d => Some("SECTION"),
        0x000e => Some("ADDR64"),
        0x000f => Some("BRANCH19"),
        _ => None,
    }
}

/// The name that `reloc_type_str_amd64` gives to each relocation type it knows.
pub open spec fn spec_reloc_type_str_amd64(reloc: u16) -> Option<&'static str> {
    match reloc {
        0x0000 => Some("IMAGE_REL_AMD64_ABSOLUTE"),
        0x0001 => Some("IMAGE_REL_AMD64_ADDR64"),
        0x0002 => Some("IMAGE_REL_AMD64_ADDR32"),
        0x0003 => Some("IMAGE_REL_AMD64_ADDR32NB"),
        0x0004 => Some("IMAGE_REL_AMD64_REL32"),
        0x0005 => Some("IMAGE_REL_AMD64_REL32_1"),
        0x0006 => Some("IMAGE_REL_AMD64_REL32_2"),
        0x0007 => Some("IMAGE_REL_AMD64_REL32_3"),
        0x0008 => Some("IMAGE_REL_AMD64_REL32_4"),
        0x0009 => Some("IMAGE_REL_AMD64_REL32_5"),
        0x000a => Some("IMAGE_REL_AMD64_SECTION"),
        0x000b => Some("IMAGE_REL_AMD64_SECREL"),
        0x000c => Some("IMAGE_REL_AMD64_SECREL7"),
        0x000d => Some("IMAGE_REL_AMD64_TOKEN"),
        0x000e => Some("IMAGE_REL_AMD64_SREL32"),
        0x000f => Some("IMAGE_REL_AMD64_PAIR"),
        0x0010 => Some("IMAGE_REL_AMD64_SSPAN32"),
        0x0011 => Some("IMAGE_REL_AMD64_EHANDLER"),
        0x0012 => Some("IMAGE_REL_AMD64_IMPORT_BR"),
        0x0013 => Some("IMAGE_REL_AMD64_IMPORT_CALL"),
        0x0014 => Some("IMAGE_REL_AMD64_CFG_BR"),
        0x0015 => Some("IMAGE_REL_AMD64_CFG_BR_REX"),
        0x0016 => Some("IMAGE_REL_AMD64_CFG_CALL"),
        0x0017 => Some("IMAGE_REL_AMD64_INDIR_BR"),
        0x0018 => Some("IMAGE_REL_AMD64_INDIR_BR_REX"),
        0x0019 => Some("IMAGE_REL_AMD64_INDIR_CALL"),
        0x0020 => Some("IMAGE_REL_AMD64_INDIR_BR_SWITCHTABLE_FIRST"),
        0x002f => Some("IMAGE_REL_AMD64_INDIR_BR_SWITCHTABLE_LAST"),
        _ => None,
    }
}

/// Names a relocation type.
pub fn reloc_type_str_amd64(reloc: u16) -> (r: Option<&'static str>)
    ensures
        r == spec_reloc_type_str_amd64(reloc),
{
    match reloc {
        0x0000 => Some("IMAGE_REL_AMD64_ABSOLUTE"),
        0x0001 => Some("IMAGE_REL_AMD64_ADDR64"),
        0x0002 => Some("IMAGE_REL_AMD64_ADDR32"),
        0x0003 => Some("IMAGE_REL_AMD64_ADDR32NB"),
        0x0004 => Some("IMAGE_REL_AMD64_REL32"),
        0x0005 => Some("IMAGE_REL_AMD64_REL32_1"),
        0x0006 => Some("IMAGE_REL_AMD64_REL32_2"),
        0x0007 => Some("IMAGE_REL_AMD64_REL32_3"),
        0x0008 => Some("IMAGE_REL_AMD64_REL32_4"),
        0x0009 => Some("IMAGE_REL_AMD64_REL32_5"),
        0x000a => Some("IMAGE_REL_AMD64_SECTION"),
        0x000b => Some("IMAGE_REL_AMD64_SECREL"),
        0x000c => Some("IMAGE_REL_AMD64_SECREL7"),
        0x000d => Some("IMAGE_REL_AMD64_TOKEN"),
        0x000e => Some("IMAGE_REL_AMD64_SREL32"),
        0x000f => Some("IMAGE_REL_AMD64_PAIR"),
        0x0010 => Some("IMAGE_REL_AMD64_SSPAN32"),
        0x0011 => Some("IMAGE_REL_AMD64_EHANDLER"),
        0x0012 => Some("IMAGE_REL_AMD64_IMPORT_BR"),
        0x0013 => Some("IMAGE_REL_AMD64_IMPORT_CALL"),
        0x0014 => Some("IMAGE_REL_AMD64_CFG_BR"),
        0x0015 => Some("IMAGE_REL_AMD64_CFG_BR_REX"),
        0x0016 => Some("IMAGE_REL_AMD64_CFG_CALL"),
        0x0017 => Some("IMAGE_REL_AMD64_INDIR_BR"),
        0x0018 => Some("IMAGE_REL_AMD64_INDIR_BR_REX"),
        0x0019 => Some("IMAGE_REL_AMD64_INDIR_CALL"),
        0x0020 => Some("IMAGE_REL_AMD64_INDIR_BR_SWITCHTABLE_FIRST"),
        0x002f => Some("IMAGE_REL_AMD64_INDIR_BR_SWITCHTABLE_LAST"),
        _ => None,
    }
}

/// The name that `reloc_type_str_short_amd64` gives to each relocation type it knows.
pub open spec fn spec_reloc_type_str_short_amd64(reloc: u16) -> Option<&'static str> {
    match reloc {
        0x0000 => Some("ABSOLUTE"),
        0x0001 => Some("ADDR64"),
        0x0002 => Some("ADDR32"),
        0x0003 => Some("ADDR32NB"),
        0x0004 => Some("REL32"),
        0x0005 => Some("REL32_1"),
        0x0006 => Some("REL32_2"),
        0x0007 => Some("REL32_3"),
        0x0008 => Some("REL32_4"),
        0x0009 => Some("REL32_5"),
        0x000a => Some("SECTION"),
        0x000b => Some("SECREL"),
        0x000c => Some("SECREL7"),
        0x000d => Some("TOKEN"),
        0x000e => Some("SREL32"),
        0x000f => Some("PAIR"),
        0x0010 => Some("SSPAN32"),
        0x0011 => Some("EHANDLER"),
        0x0012 => Some("IMPORT_BR"),
        0x0013 => Some("IMPORT_CALL"),
        0x0014 => Some("CFG_BR"),
        0x0015 => Some("CFG_BR_REX"),
        0x0016 => Some("CFG_CALL"),
        0x0017 => Some("INDIR_BR"),
        0x0018 => Some("INDIR_BR_REX"),
        0x0019 => Some("INDIR_CALL"),
        0x0020 => Some("INDIR_BR_SWITCHTABLE_FIRST"),
        0x002f => Some("INDIR_BR_SWITCHTABLE_LAST"),
        _ => None,
    }
}

/// Names a relocation type.
pub fn reloc_type_str_short_amd64(reloc: u16) -> (r: Option<&'static str>)
    ensures
        r == spec_reloc_type_str_short_amd64(reloc),
{
    match reloc {
        0x0000 => Some("ABSOLUTE"),
        0x0001 => Some("ADDR64"),
        0x0002 => Some("ADDR32"),
        0x0003 => Some("ADDR32NB"),
        0x0004 => Some("REL32"),
        0x0005 => Some("REL32_1"),
        0x0006 => Some("REL32_2"),
        0x0007 => Some("REL32_3"),
        0x0008 => Some("REL32_4"),
        0x0009 => Some("REL32_5"),
        0x000a => Some("SECTION"),
        0x000b => Some("SECREL"),
        0x000c => Some("SECREL7"),
        0x000d => Some("TOKEN"),
        0x000e => Some("SREL32"),
        0x000f => Some("PAIR"),
        0x0010 => Some("SSPAN32"),
        0x0011 => Some("EHANDLER"),
        0x0012 => Some("IMPORT_BR"),
        0x0013 => Some("IMPORT_CALL"),
        0x0014 => Some("CFG_BR"),
        0x0015 => Some("CFG_BR_REX"),
        0x0016 => Some("CFG_CALL"),
        0x0017 => Some("INDIR_BR"),
        0x0018 => Some("INDIR_BR_REX"),
        0x0019 => Some("INDIR_CALL"),
        0x0020 => Some("INDIR_BR_SWITCHTABLE_FIRST"),
        0x002f => Some("INDIR_BR_SWITCHTABLE_LAST"),
        _ => None,
    }
}

/// Names a relocation type, for the given machine. Machines other than i386, x64 and ARM64 have
/// no relocation names.
pub fn reloc_type_str(machine: IMAGE_FILE_MACHINE, reloc: u16) -> (r: Option<&'static str>)
    ensures
        r == (if machine.0 == IMAGE_FILE_MACHINE_I386 {
            spec_reloc_type_str_i386(reloc)
        } else if machine.0 == IMAGE_FILE_MACHINE_AMD64 {
            spec_reloc_type_str_amd64(reloc)
        } else if machine.0 == IMAGE_FILE_MACHINE_ARM64 {
            spec_reloc_type_str_arm64(reloc)
        } else {
            None
        }),
{
    if machine.0 == IMAGE_FILE_MACHINE_I386 {
        reloc_type_str_i386(reloc)
    } else if machine.0 == IMAGE_FILE_MACHINE_AMD64 {
        reloc_type_str_amd64(reloc)
    } else if machine.0 == IMAGE_FILE_MACHINE_ARM64 {
        reloc_type_str_arm64(reloc)
    } else {
        None
    }
}

/// Names a relocation type with its short name, for the given machine.
pub fn reloc_type_str_short(machine: IMAGE_FILE_MACHINE, reloc: u16) -> (r: Option<&'static str>)
    ensures
        r == (if machine.0 == IMAGE_FILE_MACHINE_I386 {
            spec_reloc_type_str_short_i386(reloc)
        } else if machine.0 == IMAGE_FILE_MACHINE_AMD64 {
            spec_reloc_type_str_short_amd64(reloc)
        } else if machine.0 == IMAGE_FILE_MACHINE_ARM64 {
            spec_reloc_type_str_short_arm64(reloc)
        } else {
            None
        }),
{
    if machine.0 == IMAGE_FILE_MACHINE_I386 {
        reloc_type_str_short_i386(reloc)
    } else if machine.0 == IMAGE_FILE_MACHINE_AMD64 {
        reloc_type_str_short_amd64(reloc)
    } else if machine.0 == IMAGE_FILE_MACHINE_ARM64 {
        reloc_type_str_short_arm64(reloc)
    } else {
        None
    }
}

} // verus!
