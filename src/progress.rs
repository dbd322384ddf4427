use vstd::prelude::*;

verus! {

/// What is reported after each chunk of a download.
#[derive(Debug, Clone, Copy, PartialEq, Eq, Structural)]
pub struct ProgressReport {
    /// Bytes received so far.
    pub bytes_so_far: u64,
    /// The announced length of the body, if it was announced.
    pub total: Option<u64>,
    /// Share of the announced length received, in percent.
    pub percent: Option<u64>,
    /// Estimated seconds left; unknown in the first second and before any byte.
    pub eta_secs: Option<u64>,
}

/// The bookkeeping of one download while its body streams in.
#[derive(Debug, Clone, Copy, PartialEq, Eq, Structural)]
pub struct DownloadProgress {
    pub total: Option<u64>,
    pub received: u64,
}

/// The share of `total` that `received` bytes make, in whole percent, at
/// most 100. An empty body counts as complete.
pub open spec fn percent_of(received: nat, total: nat) -> nat {
    if total == 0 {
        100
    } else if received >= total {
        100
    } else {
        received * 100 / total
    }
}

/// Seconds left at the average speed so far: the bytes still missing over
/// the bytes per second received, in whole seconds.
pub open spec fn eta_of(received: nat, total: nat, elapsed_ms: nat) -> nat
    recommends
        received > 0,
{
    let missing: nat = if received >= total {
        0
    } else {
        (total - received) as nat
    };
    missing * elapsed_ms / (received * 1000)
}

/// The report after `received` bytes, `elapsed_ms` milliseconds after the
/// download began. An estimate too large for `u64` is given as `u64::MAX`.
pub open spec fn report_of(received: u64, total: Option<u64>, elapsed_ms: u64) -> ProgressReport {
    ProgressReport {
        bytes_so_far: received,
        total: total,
        percent: match total {
            Some(t) => Some(percent_of(received as nat, t as nat) as u64),
            None => None,
        },
        eta_secs: match total {
            Some(t) => if elapsed_ms >= 1000 && received > 0 {
                let eta = eta_of(received as nat, t as nat, elapsed_ms as nat);
                Some(
                    if eta > u64::MAX {
                        u64::MAX
                    } else {
                        eta as u64
                    },
                )
            } else {
                None
            },
            None => None,
        },
    }
}

impl DownloadProgress {
    /// A download whose body is announced as `total` bytes long, or of
    /// unknown length.
    pub fn new(total: Option<u64>) -> (r: DownloadProgress)
        ensures
            r.total == total,
            r.received == 0,
    {
        DownloadProgress { total, received: 0 }
    }

    /// Takes in a chunk of `len` bytes, `elapsed_ms` milliseconds after the
    /// download began, and reports the progress so far.
    pub fn on_chunk(&mut self, len: u64, elapsed_ms: u64) -> (r: ProgressReport)
        requires
            old(self).received + len <= u64::MAX,
        ensures
            final(self).received == old(self).received + len,
            final(self).total == old(self).total,
            r == report_of(final(self).received, final(self).total, elapsed_ms),
    {
        self.received = self.received + len;
        self.report(elapsed_ms)
    }

    /// The progress so far, `elapsed_ms` milliseconds after the download began.
    pub fn report(&self, elapsed_ms: u64) -> (r: ProgressReport)
        ensures
            r == report_of(self.received, self.total, elapsed_ms),
    {
        let received = self.received;
        let percent = match self.total {
            Some(t) => Some(percent(received, t)),
            None => None,
        };
        let eta_secs = match self.total {
            Some(t) => if elapsed_ms >= 1000 && received > 0 {
                Some(eta(received, t, elapsed_ms))
            } else {
                None
            },
            None => None,
        };
        ProgressReport { bytes_so_far: received, total: self.total, percent, eta_secs }
    }
}

fn percent(received: u64, total: u64) -> (r: u64)
    ensures
        r == percent_of(received as nat, total as nat),
{
    if total == 0 || received >= total {
        100
    } else {
        let scaled: u128 = (received as u128) * 100;
        let p = scaled / (total as u128);
        assert(p <= 100) by (nonlinear_arith)
            requires
                p == scaled / (total as u128),
                scaled == received * 100,
                received < total,
                total > 0,
        ;
        p as u64
    }
}

fn eta(received: u64, total: u64, elapsed_ms: u64) -> (r: u64)
    requires
        received > 0,
    ensures
        r == (if eta_of(received as nat, total as nat, elapsed_ms as nat) > u64::MAX {
            u64::MAX as nat
        } else {
            eta_of(received as nat, total as nat, elapsed_ms as nat)
        }),
{
    let missing: u64 = if received >= total {
        0
    } else {
        total - received
    };
    assert((missing as u128) * (elapsed_ms as u128) <= 0xffff_ffff_ffff_ffffu128
        * 0xffff_ffff_ffff_ffffu128) by (nonlinear_arith)
        requires
            missing <= 0xffff_ffff_ffff_ffffu64,
            elapsed_ms <= 0xffff_ffff_ffff_ffffu64,
    ;
    assert(0xffff_ffff_ffff_ffffu128 * 0xffff_ffff_ffff_ffffu128 <= u128::MAX);
    let work: u128 = (missing as u128) * (elapsed_ms as u128);
    let rate: u128 = (received as u128) * 1000;
    let e = work / rate;
    if e > u64::MAX as u128 {
        u64::MAX
    } else {
        e as u64
    }
}

/// In the first second of a download no time estimate is given, however
/// many chunks have come in.
pub proof fn law_no_estimate_in_first_second(received: u64, total: Option<u64>, elapsed_ms: u64)
    requires
        elapsed_ms < 1000,
    ensures
        report_of(received, total, elapsed_ms).eta_secs is None,
{
}

/// Once the announced length has come in, the report says 100 percent.
pub proof fn law_complete_at_announced_length(received: u64, total: u64, elapsed_ms: u64)
    requires
        received >= total,
    ensures
        report_of(received, Some(total), elapsed_ms).percent == Some(100u64),
{
}

} // verus!
