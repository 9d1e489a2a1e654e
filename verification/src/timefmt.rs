use vstd::prelude::*;

verus! {

/// The RFC 3339 rendering of an epoch second count, taken at UTC. The
/// rendering is a fixed function of the count alone; its text is not spelled
/// out here, only named, and the generator's contracts speak of the name.
pub uninterp spec fn rfc3339_utc(secs: int) -> Seq<char>;

/// Relies on chrono::DateTime::<Utc>::from_timestamp and
/// DateTime::to_rfc3339: the rendering depends on the second count alone,
/// named here by [`rfc3339_utc`]. Every 32-bit second count lies well within
/// chrono's representable span, so the conversion always yields a date.
#[verifier::external_body]
pub(crate) fn format_rfc3339(secs: i32) -> (r: String)
    ensures
        r@ == rfc3339_utc(secs as int),
{
    let date_time = chrono::DateTime::<chrono::Utc>::from_timestamp(secs as i64, 0).unwrap();
    date_time.to_rfc3339()
}

} // verus!
