use vstd::prelude::*;
use crate::decode::{
    DecodeOutcome,
    decode_and_compare,
    decoded_text,
    outcome_of,
    text_view,
};
use crate::image::{CaptureError, RegionError, capture_screen_and_parse, parsed};
use crate::redact::{redact, redacted};

verus! {

/// The rectangle of the screen that holds the code: `[x, x + width) × [y, y + height)`.
#[derive(Clone, Copy, Debug, PartialEq, Eq, Structural)]
pub struct CropRegion {
    pub x: u32,
    pub y: u32,
    pub width: u32,
    pub height: u32,
}

/// Why one poll iteration failed.
#[derive(Clone, Copy, Debug, PartialEq, Eq, Structural)]
pub enum PollError {
    Capture(CaptureError),
    Region(RegionError),
}

/// What the scheduler does when an iteration fails.
#[derive(Clone, Copy, Debug, PartialEq, Eq, Structural)]
pub enum ErrorPolicy {
    /// Stop polling and report the failure.
    FailFast,
    /// Report the failure and go on with the next iteration.
    Continue,
}

/// Whether polling goes on after an iteration that failed or not.
pub fn keeps_polling(policy: ErrorPolicy, failed: bool) -> (r: bool)
    ensures
        r == (!failed || policy == ErrorPolicy::Continue),
{
    match policy {
        ErrorPolicy::FailFast => !failed,
        ErrorPolicy::Continue => true,
    }
}

/// What the scheduler does once an iteration is over.
#[derive(Clone, Copy, Debug, PartialEq, Eq, Structural)]
pub enum Pacing {
    /// The iteration finished early: wait this many nanoseconds.
    Sleep(u64),
    /// The iteration missed its deadline by this many nanoseconds: start again at once.
    Overrun(u64),
}

/// Decides how to pace the next iteration, given the interval and the time the iteration
/// took, both in nanoseconds.
pub fn pace(interval: u64, elapsed: u64) -> (r: Pacing)
    ensures
        elapsed < interval ==> r == Pacing::Sleep((interval - elapsed) as u64),
        elapsed >= interval ==> r == Pacing::Overrun((elapsed - interval) as u64),
{
    if elapsed < interval {
        Pacing::Sleep(interval - elapsed)
    } else {
        Pacing::Overrun(elapsed - interval)
    }
}

/// The last known payload after an outcome, and the payload due for dispatch, if any.
pub open spec fn observed(outcome: DecodeOutcome, last: Seq<char>) -> (Seq<char>, Option<Seq<char>>) {
    match outcome {
        DecodeOutcome::Changed(t) => (t@, Some(t@)),
        _ => (last, None),
    }
}

/// The models of a list of strings.
pub open spec fn views(v: Seq<String>) -> Seq<Seq<char>> {
    v.map_values(|s: String| s@)
}

/// One iteration from a captured byte stream: the new last known payload, and the redacted
/// payload due for dispatch, if any.
pub open spec fn poll_step(
    capture: Seq<u8>,
    region: CropRegion,
    last: Seq<char>,
    subs: Seq<Seq<char>>,
) -> Result<(Seq<char>, Option<Seq<char>>), PollError> {
    match parsed(capture) {
        Err(e) => Err(PollError::Capture(e)),
        Ok(img) => match img.crop(region.x, region.y, region.width, region.height) {
            Err(e) => Err(PollError::Region(e)),
            Ok(luma) => {
                let d = decoded_text(luma, region.width, region.height);
                if d is Some && d->0 != last {
                    Ok((d->0, Some(redacted(d->0, subs))))
                } else {
                    Ok((last, None))
                }
            },
        },
    }
}

/// The model of a poll result, beside the last known payload it left.
pub open spec fn poll_view(r: Result<Option<String>, PollError>, last: Seq<char>) -> Result<
    (Seq<char>, Option<Seq<char>>),
    PollError,
> {
    match r {
        Ok(d) => Ok((last, text_view(d))),
        Err(e) => Err(e),
    }
}

/// The polling state: the last payload that was found, which only a changed decode replaces.
pub struct Poller {
    pub last_payload: String,
}

impl Poller {
    /// A poller that has seen no payload yet.
    pub fn new() -> (r: Poller)
        ensures
            r.last_payload@ == Seq::<char>::empty(),
    {
        Poller { last_payload: String::new() }
    }

    /// Records a decode outcome. A changed payload becomes the last known one before it is
    /// handed back for dispatch; any other outcome changes nothing and dispatches nothing.
    pub fn observe(&mut self, outcome: DecodeOutcome) -> (r: Option<String>)
        ensures
            (final(self).last_payload@, text_view(r)) == observed(outcome, old(self).last_payload@),
    {
        match outcome {
            DecodeOutcome::Changed(text) => {
                self.last_payload = text.clone();
                Some(text)
            },
            _ => None,
        }
    }

    /// Runs one iteration on a captured byte stream: parse, crop, decode, compare with the
    /// last known payload, and on a change return the payload with `substitutions` removed.
    pub fn poll(&mut self, capture: &Vec<u8>, region: &CropRegion, substitutions: &Vec<String>) -> (r:
        Result<Option<String>, PollError>)
        ensures
            poll_view(r, final(self).last_payload@) == poll_step(
                capture@,
                *region,
                old(self).last_payload@,
                views(substitutions@),
            ),
            r is Err ==> final(self).last_payload@ == old(self).last_payload@,
    {
        let img = match capture_screen_and_parse(capture) {
            Ok(img) => img,
            Err(e) => {
                return Err(PollError::Capture(e));
            },
        };
        let luma = match img.crop_luma(region.x, region.y, region.width, region.height) {
            Ok(luma) => luma,
            Err(e) => {
                return Err(PollError::Region(e));
            },
        };
        let outcome = decode_and_compare(
            luma,
            region.width,
            region.height,
            self.last_payload.as_str(),
        );
        match self.observe(outcome) {
            Some(text) => Ok(Some(redact(text.as_str(), substitutions))),
            None => Ok(None),
        }
    }
}

} // verus!
