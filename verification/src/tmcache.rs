//! TMCache Stream
//!
//! Decodes the TMCache stream, which caches the type maps of modules (compiled with type
//! information that was merged into the PDB).

use vstd::prelude::*;
use crate::le::{le_u16, le_u32, le_u64};
use crate::parser::Parser;

verus! {

/// The version of the TMCache header that is understood.
pub const TM_CACHE_HEADER_VERSION_V1: u32 = 0x20200229;

/// The size in bytes of the TMCache header.
pub const TM_CACHE_HEADER_SIZE: usize = 20;

/// The size in bytes of an entry of the module table.
pub const TM_CACHE_MODULE_SIZE: usize = 16;

/// A type map cache of the TMTS kind.
pub const TMCACHE_KIND_TMTS: u32 = 1;
/// A type map cache of the TMR kind.
pub const TMCACHE_KIND_TMR: u32 = 2;
/// A type map cache of the TMPCT kind.
pub const TMCACHE_KIND_TMPCT: u32 = 4;
/// A type map cache of the TMPCT owner kind.
pub const TMCACHE_KIND_TMPCT_OWNER: u32 = 8;

/// Why the TMCache data could not be decoded.
#[derive(Clone, Copy, Debug, PartialEq, Eq, Structural)]
pub enum TMCacheError {
    /// The data ends before a table or header that it should hold.
    Truncated,
    /// The header has a version number that is not recognized.
    BadVersion(u32),
    /// The size of the module table is not a multiple of the size of its entries.
    BadModuleTableSize(u32),
    /// The size of the TM table is not a multiple of 2.
    BadTmTableSize(u32),
    /// The kind of a type map cache is not recognized.
    UnknownKind(u32),
}

/// An entry of the module table of the TMCache stream.
#[derive(Clone, Copy, Debug, PartialEq, Eq, Structural)]
pub struct TMCacheModule {
    /// Index into the TM table.
    pub tm_index: u32,
    /// Reserved.
    pub reserved: u32,
    /// Checksum.
    pub checksum: u64,
}

/// The TMCache stream: its module table and its table of streams.
pub struct TMCacheTable {
    /// The module table.
    pub module_table: Vec<TMCacheModule>,
    /// Contains stream indexes.
    pub tm_table: Vec<u16>,
}

/// The module table entry encoded at the start of `s`.
pub open spec fn tm_module_at(s: Seq<u8>) -> TMCacheModule {
    TMCacheModule {
        tm_index: le_u32(s) as u32,
        reserved: le_u32(s.skip(4)) as u32,
        checksum: le_u64(s.skip(8)) as u64,
    }
}

/// Reads `n` module table entries at `off` within `data`.
fn read_module_table(data: &[u8], off: usize, n: usize) -> (v: Vec<TMCacheModule>)
    requires
        off + 16 * n <= data@.len(),
    ensures
        v@ == Seq::new(n as nat, |i: int| tm_module_at(data@.skip(off + 16 * i))),
{
    let len = data.len();
    let mut v: Vec<TMCacheModule> = Vec::new();
    let mut i: usize = 0;
    while i < n
        invariant
            i <= n,
            len == data@.len(),
            off + 16 * n <= len,
            v@.len() == i,
            forall|k: int| 0 <= k < i ==> #[trigger] v@[k] == tm_module_at(data@.skip(off + 16 * k)),
        decreases n - i,
    {
        let o = off + 16 * i;
        let rest = vstd::slice::slice_subrange(data, o, len);
        let mut p = Parser::new(rest);
        let tm_index = match p.u32() {
            Ok(x) => x,
            Err(_) => 0,
        };
        let reserved = match p.u32() {
            Ok(x) => x,
            Err(_) => 0,
        };
        let checksum = match p.u64() {
            Ok(x) => x,
            Err(_) => 0,
        };
        proof {
            let s = data@.skip(o as int);
            assert(rest@ =~= s);
            assert(rest@.skip(4) =~= s.skip(4));
            assert(rest@.skip(4).skip(4) =~= s.skip(8));
        }
        v.push(TMCacheModule { tm_index, reserved, checksum });
        i = i + 1;
    }
    assert(v@ =~= Seq::new(n as nat, |i: int| tm_module_at(data@.skip(off + 16 * i))));
    v
}

impl TMCacheTable {
    /// Decodes the TMCache stream `data`: a header (version, then the offset and size of the TM
    /// table, then the offset and size of the module table), the module table and the TM table.
    pub fn parse(data: &[u8]) -> (r: Result<Self, TMCacheError>)
        ensures
            ({
                let s = data@;
                let version = le_u32(s);
                let tm_off = le_u32(s.skip(4));
                let tm_size = le_u32(s.skip(8));
                let mod_off = le_u32(s.skip(12));
                let mod_size = le_u32(s.skip(16));
                if s.len() < 20 {
                    r == Err::<Self, TMCacheError>(TMCacheError::Truncated)
                } else if version != TM_CACHE_HEADER_VERSION_V1 {
                    r == Err::<Self, TMCacheError>(TMCacheError::BadVersion(version as u32))
                } else if mod_size % 16 != 0 {
                    r == Err::<Self, TMCacheError>(TMCacheError::BadModuleTableSize(mod_size as u32))
                } else if mod_off + mod_size > s.len() {
                    r == Err::<Self, TMCacheError>(TMCacheError::Truncated)
                } else if tm_size % 2 != 0 {
                    r == Err::<Self, TMCacheError>(TMCacheError::BadTmTableSize(tm_size as u32))
                } else if tm_off + tm_size > s.len() {
                    r == Err::<Self, TMCacheError>(TMCacheError::Truncated)
                } else {
                    r matches Ok(t) && t.module_table@ == Seq::new(
                        (mod_size / 16) as nat,
                        |i: int| tm_module_at(s.skip(mod_off + 16 * i)),
                    ) && t.tm_table@ == Parser::u16_list(s.skip(tm_off), tm_size / 2)
                }
            }),
    {
        let len = data.len();
        if len < TM_CACHE_HEADER_SIZE {
            return Err(TMCacheError::Truncated);
        }
        let version = crate::le::read_u32_at(data, 0);
        let tm_off = crate::le::read_u32_at(data, 4) as usize;
        let tm_size = crate::le::read_u32_at(data, 8) as usize;
        let mod_off = crate::le::read_u32_at(data, 12) as usize;
        let mod_size = crate::le::read_u32_at(data, 16) as usize;
        if version != TM_CACHE_HEADER_VERSION_V1 {
            return Err(TMCacheError::BadVersion(version));
        }
        if mod_size % TM_CACHE_MODULE_SIZE != 0 {
            return Err(TMCacheError::BadModuleTableSize(mod_size as u32));
        }
        if mod_off > len || mod_size > len - mod_off {
            return Err(TMCacheError::Truncated);
        }
        let module_table = read_module_table(data, mod_off, mod_size / TM_CACHE_MODULE_SIZE);
        if tm_size % 2 != 0 {
            return Err(TMCacheError::BadTmTableSize(tm_size as u32));
        }
        if tm_off > len || tm_size > len - tm_off {
            return Err(TMCacheError::Truncated);
        }
        let rest = vstd::slice::slice_subrange(data, tm_off, len);
        assert(rest@ =~= data@.skip(tm_off as int));
        let mut p = Parser::new(rest);
        let tm_table = match p.u16_array(tm_size / 2) {
            Ok(v) => v,
            Err(_) => return Err(TMCacheError::Truncated),
        };
        Ok(TMCacheTable { module_table, tm_table })
    }
}

/// A type map of the TMTS kind.
pub struct Tmts {
    /// Where each type index is mapped to.
    pub ti_mapped_to: Vec<u32>,
    /// Where each item index is mapped to.
    pub id_mapped_to: Vec<u32>,
}

/// A type map of the TMR kind.
pub struct Tmr {
    /// Where each type index is mapped to.
    pub ti_mapped_to: Vec<u32>,
}

/// A type map of the TMPCT kind.
pub struct Tmpct {}

/// A cached type map.
pub enum TMCache {
    /// A TMTS type map.
    Tmts(Tmts),
    /// A TMR type map.
    Tmr(Tmr),
    /// A TMPCT type map.
    Tmpct(Tmpct),
    /// A TMPCT owner type map.
    TmpctOwner(Tmpct),
}

impl TMCache {
    /// Decodes a cached type map from the stream `data`: a 32-bit kind, then for TMTS the counts
    /// of type and item indexes and their two maps, and for TMR a 16-byte header (whose fourth
    /// field is the count of type indexes), the type map, the record offsets and a 32-bit size.
    pub fn parse(data: &[u8]) -> (r: Result<Self, TMCacheError>)
        requires
            data@.len() >= 4 ==> le_u32(data@) != TMCACHE_KIND_TMPCT && le_u32(data@)
                != TMCACHE_KIND_TMPCT_OWNER,
        ensures
            ({
                let s = data@;
                let kind = le_u32(s);
                if s.len() < 4 {
                    r == Err::<Self, TMCacheError>(TMCacheError::Truncated)
                } else if kind == TMCACHE_KIND_TMTS {
                    if s.len() < 12 {
                        r == Err::<Self, TMCacheError>(TMCacheError::Truncated)
                    } else {
                        let cti = le_u32(s.skip(4));
                        let cid = le_u32(s.skip(8));
                        if 12 + 4 * cti + 4 * cid > s.len() {
                            r == Err::<Self, TMCacheError>(TMCacheError::Truncated)
                        } else {
                            r matches Ok(TMCache::Tmts(t)) && t.ti_mapped_to@ == Parser::u32_list(
                                s.skip(12),
                                cti,
                            ) && t.id_mapped_to@ == Parser::u32_list(s.skip(12 + 4 * cti), cid)
                        }
                    }
                } else if kind == TMCACHE_KIND_TMR {
                    if s.len() < 20 {
                        r == Err::<Self, TMCacheError>(TMCacheError::Truncated)
                    } else {
                        let cti = le_u32(s.skip(16));
                        if 20 + 8 * cti + 4 > s.len() {
                            r == Err::<Self, TMCacheError>(TMCacheError::Truncated)
                        } else {
                            r matches Ok(TMCache::Tmr(t)) && t.ti_mapped_to@ == Parser::u32_list(
                                s.skip(20),
                                cti,
                            )
                        }
                    }
                } else {
                    r == Err::<Self, TMCacheError>(TMCacheError::UnknownKind(kind as u32))
                }
            }),
    {
        let len = data.len();
        if len < 4 {
            return Err(TMCacheError::Truncated);
        }
        let kind = crate::le::read_u32_at(data, 0);
        if kind == TMCACHE_KIND_TMTS {
            if len < 12 {
                return Err(TMCacheError::Truncated);
            }
            let cti = crate::le::read_u32_at(data, 4) as u64;
            let cid = crate::le::read_u32_at(data, 8) as u64;
            if 12 + 4 * cti + 4 * cid > len as u64 {
                return Err(TMCacheError::Truncated);
            }
            let rest = vstd::slice::slice_subrange(data, 12, len);
            let mut p = Parser::new(rest);
            let ti_mapped_to = match p.u32_array(cti as usize) {
                Ok(v) => v,
                Err(_) => return Err(TMCacheError::Truncated),
            };
            let id_mapped_to = match p.u32_array(cid as usize) {
                Ok(v) => v,
                Err(_) => return Err(TMCacheError::Truncated),
            };
            proof {
                assert(rest@ =~= data@.skip(12));
                assert(data@.skip(12).skip(4 * cti) =~= data@.skip(12 + 4 * cti));
            }
            Ok(TMCache::Tmts(Tmts { ti_mapped_to, id_mapped_to }))
        } else if kind == TMCACHE_KIND_TMR {
            if len < 20 {
                return Err(TMCacheError::Truncated);
            }
            let cti = crate::le::read_u32_at(data, 16) as u64;
            if 20 + 8 * cti + 4 > len as u64 {
                return Err(TMCacheError::Truncated);
            }
            let rest = vstd::slice::slice_subrange(data, 20, len);
            let mut p = Parser::new(rest);
            let ti_mapped_to = match p.u32_array(cti as usize) {
                Ok(v) => v,
                Err(_) => return Err(TMCacheError::Truncated),
            };
            assert(rest@ =~= data@.skip(20));
            Ok(TMCache::Tmr(Tmr { ti_mapped_to }))
        } else {
            Err(TMCacheError::UnknownKind(kind))
        }
    }
}

} // verus!
