use vstd::prelude::*;

verus! {

/// Headroom kept free beyond the content itself: at least sixteen mebibytes.
pub const MINIMUM_MARGIN: u64 = 16_777_216u64;

/// The safety margin for `content_bytes`: the larger of the fixed minimum and one percent.
pub open spec fn spec_margin(content_bytes: u64) -> int {
    if MINIMUM_MARGIN >= content_bytes / 100 { MINIMUM_MARGIN as int } else { (content_bytes / 100) as int }
}

/// Bytes to reserve before copying `content_bytes`: the content plus its margin,
/// saturating at `u64::MAX`.
pub fn required_space(content_bytes: u64) -> (required: u64)
    ensures
        content_bytes + spec_margin(content_bytes) <= u64::MAX ==> required == content_bytes + spec_margin(content_bytes),
        content_bytes + spec_margin(content_bytes) > u64::MAX ==> required == u64::MAX,
{
    let one_percent = content_bytes / 100;
    let margin = if MINIMUM_MARGIN >= one_percent { MINIMUM_MARGIN } else { one_percent };
    content_bytes.saturating_add(margin)
}

/// Free space could not be measured at `path`.
#[derive(Clone, Debug, PartialEq, Eq)]
pub struct SpaceWarning {
    pub path: String,
    pub cause: String,
}

/// A file system holds less free space than Apply needs.
#[derive(Clone, Debug, PartialEq, Eq)]
pub struct InsufficientSpace {
    pub path: String,
    pub required: u64,
    pub available: u64,
}

/// What a free-space measurement at `path` means for Apply: too little space is an
/// error, a failed measurement only a warning, and enough space nothing at all.
pub fn space_outcome(path: &str, required: u64, measured: Result<u64, String>) -> (r: Result<Option<SpaceWarning>, InsufficientSpace>)
    ensures
        match measured {
            Ok(available) => if available < required {
                r matches Err(e) && e.path@ == path@ && e.required == required && e.available == available
            } else {
                r matches Ok(None)
            },
            Err(cause) => r matches Ok(Some(w)) && w.path@ == path@ && w.cause@ == cause@,
        },
{
    match measured {
        Ok(available) => if available < required {
            Err(InsufficientSpace { path: crate::text::owned(path), required, available })
        } else {
            Ok(None)
        },
        Err(cause) => Ok(Some(SpaceWarning { path: crate::text::owned(path), cause })),
    }
}

/// Law: the estimate always covers the content plus at least the minimum margin,
/// unless that sum does not fit in 64 bits, when it is the largest value.
pub proof fn law_estimate_includes_margin(content_bytes: u64)
    ensures
        content_bytes + MINIMUM_MARGIN <= u64::MAX ==> content_bytes + spec_margin(content_bytes) >= content_bytes + MINIMUM_MARGIN,
        spec_margin(content_bytes) >= MINIMUM_MARGIN,
        spec_margin(content_bytes) * 100 >= content_bytes - 99,
{
}

} // verus!
