//! The decision logic of the fetch protocol: discovering the target filename
//! of a probed resource, checking the integrity of a finished transfer, and
//! planning retries with exponential backoff. The network and filesystem work
//! around these decisions happens outside the library.

use vstd::arithmetic::power::lemma_pow_positive;
use vstd::arithmetic::power::pow;
use vstd::prelude::*;

use crate::strutil::digit_run_end;
use crate::strutil::find_char;
use crate::strutil::find_sub;
use crate::strutil::first_idx;
use crate::strutil::first_match_idx;
use crate::strutil::is_digit;
use crate::strutil::lemma_first_idx;
use crate::strutil::is_digit_exec;
use crate::strutil::last_idx_below;
use crate::strutil::lemma_digit_run_end;
use crate::strutil::lemma_first_match_idx;
use crate::strutil::lemma_last_idx_below;
use crate::strutil::match_at;
use crate::strutil::matches_at;

verus! {

/// What went wrong with one resource, by the error taxonomy of the design:
/// a broken or incomplete catalog entry, a network failure, a transfer whose
/// byte count does not match the advertised length, or a filesystem failure.
#[derive(Clone, Copy, Debug, PartialEq, Eq, Structural)]
pub enum FetchErrorKind {
    CatalogEntry,
    Network,
    Integrity,
    Filesystem,
}

/// Transient failures are worth another attempt; a broken catalog entry or a
/// filesystem failure is not.
pub open spec fn spec_retryable(kind: FetchErrorKind) -> bool {
    kind == FetchErrorKind::Network || kind == FetchErrorKind::Integrity
}

/// Whether a failure of this kind is worth another attempt.
pub fn is_retryable(kind: FetchErrorKind) -> (r: bool)
    ensures
        r == spec_retryable(kind),
{
    kind == FetchErrorKind::Network || kind == FetchErrorKind::Integrity
}

/// The attachment marker of a content-disposition header value.
pub open spec fn attachment_marker() -> Seq<char> {
    "attachment; filename=\""@
}

/// The filename carried by a content-disposition header value: the text
/// between the first attachment marker and the last quote of the value. A
/// value without the marker, or without a quote behind it, carries no
/// filename.
pub open spec fn spec_filename_from_headers(h: Seq<char>) -> Option<Seq<char>> {
    let i = first_match_idx(h, attachment_marker());
    if i == h.len() {
        Option::None
    } else {
        let start = i + attachment_marker().len();
        let q = last_idx_below(h, '"', h.len() as int);
        if q >= start {
            Option::Some(h.subrange(start, q))
        } else {
            Option::None
        }
    }
}

/// Parses the filename from a content-disposition header value.
pub fn get_filename_from_headers(content_disposition: &str) -> (r: Option<String>)
    ensures
        match r {
            Option::Some(name) => spec_filename_from_headers(content_disposition@)
                == Option::Some(name@),
            Option::None => spec_filename_from_headers(content_disposition@) is None,
        },
{
    let marker = "attachment; filename=\"";
    let n = content_disposition.unicode_len();
    let m = marker.unicode_len();
    match find_sub(content_disposition, marker) {
        Option::None => {
            proof {
                assert(forall|j: int| !matches_at(content_disposition@, marker@, j));
                lemma_first_match_idx(
                    content_disposition@,
                    marker@,
                    content_disposition@.len() as int,
                );
            }
            Option::None
        },
        Option::Some(i) => {
            proof {
                reveal_strlit("attachment; filename=\"");
                lemma_first_match_idx(content_disposition@, marker@, i as int);
            }
            let start = i + m;
            let mut j = n;
            while j > 0 && content_disposition.get_char(j - 1) != '"'
                invariant
                    n == content_disposition@.len(),
                    0 <= j <= n,
                    forall|k: int| j <= k < n ==> content_disposition@[k] != '"',
                decreases j,
            {
                j = j - 1;
            }
            if j == 0 {
                proof {
                    lemma_last_idx_below(content_disposition@, '"', n as int, -1);
                }
                return Option::None;
            }
            let q = j - 1;
            proof {
                lemma_last_idx_below(content_disposition@, '"', n as int, q as int);
            }
            if q >= start {
                Option::Some(String::from_str(content_disposition.substring_char(start, q)))
            } else {
                Option::None
            }
        },
    }
}

/// The start of a content-delivery address.
pub open spec fn cdn_head() -> Seq<char> {
    "https://cdn"@
}

/// The host and path marker that follows the numbered delivery host.
pub open spec fn cdn_host_rest() -> Seq<char> {
    ".beamng.com/mods/"@
}

/// The filename embedded in a content-delivery address, by the known
/// convention: the address starts with a numbered delivery host, its path
/// runs under the mods prefix, and the final path segment, taken before an
/// optional query string, names a zip archive. An address outside the
/// convention carries no filename.
pub open spec fn spec_filename_from_url(u: Seq<char>) -> Option<Seq<char>> {
    if !matches_at(u, cdn_head(), 0) {
        Option::None
    } else {
        let d = digit_run_end(u, cdn_head().len() as int);
        if !matches_at(u, cdn_host_rest(), d) {
            Option::None
        } else {
            let q = first_idx(u, '?');
            let sl = last_idx_below(u, '/', q);
            if sl < 0 {
                Option::None
            } else {
                let name = u.subrange(sl + 1, q);
                if name.len() >= 4 && matches_at(name, ".zip"@, name.len() - 4) {
                    Option::Some(name)
                } else {
                    Option::None
                }
            }
        }
    }
}

/// Parses the filename out of the passed content-delivery address.
pub fn get_filename_from_url(url_string: &str) -> (r: Option<String>)
    ensures
        match r {
            Option::Some(name) => spec_filename_from_url(url_string@) == Option::Some(name@),
            Option::None => spec_filename_from_url(url_string@) is None,
        },
{
    let head = "https://cdn";
    if !match_at(url_string, head, 0) {
        return Option::None;
    }
    let n = url_string.unicode_len();
    let head_len = head.unicode_len();
    let mut d = head_len;
    while d < n && is_digit_exec(url_string.get_char(d))
        invariant
            n == url_string@.len(),
            head_len <= d <= n,
            forall|j: int| head_len <= j < d ==> is_digit(#[trigger] url_string@[j]),
        decreases n - d,
    {
        d = d + 1;
    }
    proof {
        lemma_digit_run_end(url_string@, head_len as int, d as int);
    }
    if !match_at(url_string, ".beamng.com/mods/", d) {
        return Option::None;
    }
    let q = match find_char(url_string, '?') {
        Option::None => {
            proof {
                lemma_first_idx(url_string@, '?', url_string@.len() as int);
            }
            n
        },
        Option::Some(q) => {
            proof {
                lemma_first_idx(url_string@, '?', q as int);
            }
            q
        },
    };
    let mut j = q;
    while j > 0 && url_string.get_char(j - 1) != '/'
        invariant
            n == url_string@.len(),
            q <= n,
            0 <= j <= q,
            forall|k: int| j <= k < q ==> url_string@[k] != '/',
        decreases j,
    {
        j = j - 1;
    }
    if j == 0 {
        proof {
            lemma_last_idx_below(url_string@, '/', q as int, -1);
        }
        return Option::None;
    }
    let sl = j - 1;
    proof {
        lemma_last_idx_below(url_string@, '/', q as int, sl as int);
    }
    let name = url_string.substring_char(sl + 1, q);
    let name_len = name.unicode_len();
    if name_len >= 4 && match_at(name, ".zip", name_len - 4) {
        Option::Some(String::from_str(name))
    } else {
        Option::None
    }
}

/// The filename a probed resource resolves to: the attachment filename of
/// the content-disposition header if the probe carried that header, else the
/// filename embedded in the resolved address.
pub open spec fn spec_target_filename(disposition: Option<Seq<char>>, url: Seq<char>) -> Option<
    Seq<char>,
> {
    match disposition {
        Option::Some(h) => spec_filename_from_headers(h),
        Option::None => spec_filename_from_url(url),
    }
}

/// Determines the filename of a probed resource. If neither the header nor
/// the address yields one, resolution fails for this resource: it cannot be
/// placed on disk deterministically.
pub fn build_target_filename(content_disposition: Option<&str>, resolved_url: &str) -> (r: Option<
    String,
>)
    ensures
        match r {
            Option::Some(name) => spec_target_filename(
                match content_disposition {
                    Option::Some(h) => Option::Some(h@),
                    Option::None => Option::None,
                },
                resolved_url@,
            ) == Option::Some(name@),
            Option::None => spec_target_filename(
                match content_disposition {
                    Option::Some(h) => Option::Some(h@),
                    Option::None => Option::None,
                },
                resolved_url@,
            ) is None,
        },
{
    match content_disposition {
        Option::Some(h) => get_filename_from_headers(h),
        Option::None => get_filename_from_url(resolved_url),
    }
}

/// The retry plan for transient failures: how many attempts one resource is
/// given in all, and the exponential backoff between them.
#[derive(Clone, Copy, Debug, PartialEq, Eq, Structural)]
pub struct RetryPolicy {
    /// How many attempts one resource is given in all.
    pub max_attempts: u32,
    /// The delay before the first retry, in milliseconds.
    pub base_delay_ms: u64,
    /// The factor by which the delay grows from retry to retry.
    pub multiplier: u64,
}

impl RetryPolicy {
    /// The delay before the retry following the given number of completed
    /// attempts, by exponential backoff.
    pub open spec fn spec_delay(&self, exponent: nat) -> int {
        self.base_delay_ms * pow(self.multiplier as int, exponent)
    }

    /// The delay in milliseconds before the retry that follows `exponent`
    /// earlier retries, clamped at the largest representable value.
    pub fn delay_for(&self, exponent: u32) -> (r: u64)
        requires
            self.multiplier >= 1,
        ensures
            self.spec_delay(exponent as nat) <= u64::MAX ==> r == self.spec_delay(exponent as nat),
            self.spec_delay(exponent as nat) > u64::MAX ==> r == u64::MAX,
    {
        let mut delay: u64 = self.base_delay_ms;
        proof {
            assert(pow(self.multiplier as int, 0) == 1) by {
                vstd::arithmetic::power::lemma_pow0(self.multiplier as int);
            }
        }
        for i in 0..exponent
            invariant
                self.multiplier >= 1,
                self.spec_delay(i as nat) <= u64::MAX ==> delay == self.spec_delay(i as nat),
                self.spec_delay(i as nat) > u64::MAX ==> delay == u64::MAX,
        {
            proof {
                self.lemma_delay_step(i as nat);
            }
            match delay.checked_mul(self.multiplier) {
                Option::Some(v) => {
                    delay = v;
                },
                Option::None => {
                    delay = u64::MAX;
                },
            }
        }
        delay
    }

    proof fn lemma_delay_step(&self, i: nat)
        requires
            self.multiplier >= 1,
        ensures
            self.spec_delay(i + 1) == self.multiplier * self.spec_delay(i),
            self.spec_delay(i) >= 0,
            self.spec_delay(i + 1) >= self.spec_delay(i),
    {
        let m = self.multiplier as int;
        let b = self.base_delay_ms as int;
        let p = pow(m, i);
        lemma_pow_positive(m, i);
        vstd::arithmetic::power::lemma_pow_adds(m, i, 1);
        vstd::arithmetic::power::lemma_pow1(m);
        assert(pow(m, i + 1) == p * m);
        assert(b * (p * m) == m * (b * p)) by (nonlinear_arith);
        assert(b * p >= 0) by (nonlinear_arith)
            requires
                b >= 0,
                p > 0,
        ;
        assert(m * (b * p) >= b * p) by (nonlinear_arith)
            requires
                m >= 1,
                b * p >= 0,
        ;
    }
}

/// The states one fetch attempt passes through: the probe answered, the
/// target filename is known, the body is streaming, and the two terminal
/// outcomes, a verified file or a failure.
#[derive(Clone, Copy, Debug, PartialEq, Eq, Structural)]
pub enum FetchState {
    Probed,
    FilenameResolved,
    Downloading,
    Verified,
    Failed,
}

/// The transitions one fetch attempt may take.
pub open spec fn step_allowed(from: FetchState, to: FetchState) -> bool {
    ||| (from == FetchState::Probed && to == FetchState::FilenameResolved)
    ||| (from == FetchState::Probed && to == FetchState::Failed)
    ||| (from == FetchState::FilenameResolved && to == FetchState::Downloading)
    ||| (from == FetchState::FilenameResolved && to == FetchState::Failed)
    ||| (from == FetchState::Downloading && to == FetchState::Verified)
    ||| (from == FetchState::Downloading && to == FetchState::Failed)
}

/// One resource's fetch, stepped through its states by the caller that does
/// the probing, streaming and writing around it. `attempts` counts the
/// attempts started; a retry leaves the failed attempt behind and starts the
/// next one at the probe.
pub struct FetchSession {
    pub state: FetchState,
    pub attempts: u32,
}

impl FetchSession {
    /// Starts the first attempt, at the answered probe.
    pub fn new() -> (s: Self)
        ensures
            s.state == FetchState::Probed,
            s.attempts == 1,
    {
        FetchSession { state: FetchState::Probed, attempts: 1 }
    }

    /// Resolves the target filename from the probe's answer. Failure is a
    /// broken catalog entry: nothing names the file, so the resource cannot
    /// be fetched.
    pub fn resolve_filename(&mut self, content_disposition: Option<&str>, resolved_url: &str) -> (r:
        Result<String, FetchErrorKind>)
        requires
            old(self).state == FetchState::Probed,
        ensures
            step_allowed(old(self).state, final (self).state),
            final (self).attempts == old(self).attempts,
            match r {
                Result::Ok(name) => final (self).state == FetchState::FilenameResolved
                    && spec_target_filename(
                    match content_disposition {
                        Option::Some(h) => Option::Some(h@),
                        Option::None => Option::None,
                    },
                    resolved_url@,
                ) == Option::Some(name@),
                Result::Err(kind) => final (self).state == FetchState::Failed && kind
                    == FetchErrorKind::CatalogEntry && spec_target_filename(
                    match content_disposition {
                        Option::Some(h) => Option::Some(h@),
                        Option::None => Option::None,
                    },
                    resolved_url@,
                ) is None,
            },
    {
        match build_target_filename(content_disposition, resolved_url) {
            Option::Some(name) => {
                self.state = FetchState::FilenameResolved;
                Result::Ok(name)
            },
            Option::None => {
                self.state = FetchState::Failed;
                Result::Err(FetchErrorKind::CatalogEntry)
            },
        }
    }

    /// Begins streaming the body to the resolved target.
    pub fn begin_transfer(&mut self)
        requires
            old(self).state == FetchState::FilenameResolved,
        ensures
            step_allowed(old(self).state, final (self).state),
            final (self).state == FetchState::Downloading,
            final (self).attempts == old(self).attempts,
    {
        self.state = FetchState::Downloading;
    }

    /// Checks the finished transfer: the bytes written must equal the
    /// advertised length exactly; a mismatch is an integrity failure, not a
    /// partial success.
    pub fn verify_transfer(&mut self, bytes_written: u64, content_length: u64) -> (r: Result<
        (),
        FetchErrorKind,
    >)
        requires
            old(self).state == FetchState::Downloading,
        ensures
            step_allowed(old(self).state, final (self).state),
            final (self).attempts == old(self).attempts,
            r is Ok <==> bytes_written == content_length,
            r is Ok ==> final (self).state == FetchState::Verified,
            match r {
                Result::Ok(_) => final (self).state == FetchState::Verified,
                Result::Err(kind) => final (self).state == FetchState::Failed && kind
                    == FetchErrorKind::Integrity,
            },
    {
        if bytes_written == content_length {
            self.state = FetchState::Verified;
            Result::Ok(())
        } else {
            self.state = FetchState::Failed;
            Result::Err(FetchErrorKind::Integrity)
        }
    }

    /// Records a failure reported by the surrounding probe, transfer or
    /// write.
    pub fn fail(&mut self)
        requires
            old(self).state == FetchState::Probed || old(self).state
                == FetchState::FilenameResolved || old(self).state == FetchState::Downloading,
        ensures
            step_allowed(old(self).state, final (self).state),
            final (self).state == FetchState::Failed,
            final (self).attempts == old(self).attempts,
    {
        self.state = FetchState::Failed;
    }

    /// Decides whether the failed attempt earns a retry: only transient
    /// failures do, and only while attempts are left. A granted retry starts
    /// the next attempt at the probe and answers the backoff delay before
    /// it; otherwise the session stays failed.
    pub fn next_retry(&mut self, policy: &RetryPolicy, kind: FetchErrorKind) -> (r: Option<u64>)
        requires
            old(self).state == FetchState::Failed,
            old(self).attempts >= 1,
            policy.multiplier >= 1,
        ensures
            if spec_retryable(kind) && old(self).attempts < policy.max_attempts {
                &&& final (self).state == FetchState::Probed
                &&& final (self).attempts == old(self).attempts + 1
                &&& r matches Option::Some(delay) && ({
                    let d = policy.spec_delay((old(self).attempts - 1) as nat);
                    (d <= u64::MAX ==> delay == d) && (d > u64::MAX ==> delay == u64::MAX)
                })
            } else {
                r is None && *final (self) == *old(self)
            },
    {
        if is_retryable(kind) && self.attempts < policy.max_attempts {
            let delay = policy.delay_for(self.attempts - 1);
            self.attempts = self.attempts + 1;
            self.state = FetchState::Probed;
            Option::Some(delay)
        } else {
            Option::None
        }
    }
}

} // verus!
