use vstd::prelude::*;

use super::file::{CompareFunc, Filtering, WrapMode};

verus! {

/// What a sampler is made of; samplers with equal keys are shared.
#[derive(Clone, Copy, Debug, Hash, PartialEq, Eq, Structural)]
pub struct SamplerKey {
    pub filter: Filtering,
    pub wrap_mode: WrapMode,
    pub compare_func: CompareFunc,
    pub anisotropy: u8,
}

/// The key packed into a number, 8 bits per field, from the lowest byte up:
/// filter, wrap mode, compare function, anisotropy.
pub open spec fn key_number(key: SamplerKey) -> int {
    key.filter as int + key.wrap_mode as int * 0x100 + key.compare_func as int * 0x1_0000
        + key.anisotropy as int * 0x100_0000
}

impl SamplerKey {
    pub fn to_u32(self) -> (r: u32)
        ensures
            r == key_number(self),
    {
        let f = self.filter as u32;
        let w = self.wrap_mode as u32;
        let c = self.compare_func as u32;
        let a = self.anisotropy as u32;
        assert(f | w << 8 | c << 16 | a << 24 == f + w * 0x100 + c * 0x1_0000 + a * 0x100_0000)
            by (bit_vector)
            requires
                f < 0x100,
                w < 0x100,
                c < 0x100,
                a < 0x100,
        ;
        // 8 bits each
        f | w << 8 | c << 16 | a << 24
    }
}

/// Two keys pack into the same number only when they are equal, so the number
/// names a sampler.
pub proof fn lemma_key_number_injective(a: SamplerKey, b: SamplerKey)
    requires
        key_number(a) == key_number(b),
    ensures
        a == b,
{
    let (fa, wa, ca, aa) = (a.filter as u32, a.wrap_mode as u32, a.compare_func as u32, a.anisotropy as u32);
    let (fb, wb, cb, ab) = (b.filter as u32, b.wrap_mode as u32, b.compare_func as u32, b.anisotropy as u32);
    assert(fa == fb && wa == wb && ca == cb && aa == ab) by (bit_vector)
        requires
            fa < 0x100 && wa < 0x100 && ca < 0x100 && aa < 0x100,
            fb < 0x100 && wb < 0x100 && cb < 0x100 && ab < 0x100,
            fa + wa * 0x100 + ca * 0x1_0000 + aa * 0x100_0000 == fb + wb * 0x100 + cb * 0x1_0000
                + ab * 0x100_0000,
    ;
}

/// The anisotropy levels samplers support.
pub open spec fn supported_anisotropy(v: u8) -> bool {
    v == 1 || v == 4 || v == 8 || v == 16
}

/// The sampler a key describes, as the device is asked for it. A sampler
/// without a compare function compares with `Always`, disabled.
#[derive(Clone, Copy, Debug, PartialEq, Eq, Structural)]
pub struct SamplerInfo {
    pub filter: Filtering,
    pub wrap_mode: WrapMode,
    pub anisotropy_enable: bool,
    pub anisotropy: u8,
    pub compare_enable: bool,
    pub compare_func: CompareFunc,
}

/// A sampler made on the device: `sampler` is its raw handle, `position` its
/// slot among the samplers.
#[derive(Clone)]
pub struct Sampler {
    pub name: String,
    pub sampler: u64,
    pub descriptor_offset: usize,
    pub position: u8,
}

impl Sampler {
    /// The anisotropy level, one of those samplers support.
    pub fn validate_anisotropy(v: u8) -> (r: u8)
        requires
            supported_anisotropy(v),
        ensures
            r == v,
    {
        match v {
            1 => 1,
            4 => 4,
            8 => 8,
            _ => 16,
        }
    }

    /// What the device is asked for to make the sampler of `key`.
    pub fn info_of_key(key: SamplerKey) -> (r: SamplerInfo)
        requires
            supported_anisotropy(key.anisotropy),
        ensures
            r == (SamplerInfo {
                filter: key.filter,
                wrap_mode: key.wrap_mode,
                anisotropy_enable: key.anisotropy > 1,
                anisotropy: key.anisotropy,
                compare_enable: key.compare_func != CompareFunc::NoCompare,
                compare_func: if key.compare_func == CompareFunc::NoCompare {
                    CompareFunc::Always
                } else {
                    key.compare_func
                },
            }),
    {
        Self::info_of(
            key.filter,
            key.wrap_mode,
            key.compare_func,
            Self::validate_anisotropy(key.anisotropy),
        )
    }

    fn info_of(filter: Filtering, wrap_mode: WrapMode, compare_func: CompareFunc, anisotropy: u8) -> (r:
        SamplerInfo)
        ensures
            r == (SamplerInfo {
                filter,
                wrap_mode,
                anisotropy_enable: anisotropy > 1,
                anisotropy,
                compare_enable: compare_func != CompareFunc::NoCompare,
                compare_func: if compare_func == CompareFunc::NoCompare {
                    CompareFunc::Always
                } else {
                    compare_func
                },
            }),
    {
        let no_compare = match compare_func {
            CompareFunc::NoCompare => true,
            _ => false,
        };
        SamplerInfo {
            filter,
            wrap_mode,
            anisotropy_enable: anisotropy > 1,
            anisotropy,
            compare_enable: !no_compare,
            compare_func: if no_compare {
                CompareFunc::Always
            } else {
                compare_func
            },
        }
    }
}

} // verus!
