//! What an administrator may set: when the trust graph is rebuilt, and where
//! the source code is.

use vstd::prelude::*;
use vstd::string::StrSliceExecFns;

use crate::error;
use crate::error::{AppError, ErrorCode, Failure};
use crate::text;
use crate::text::same_text;
use crate::web_url;
use crate::web_url::{parse_url, UrlParts, UrlView};

verus! {

/// When the trust graph is rebuilt, in milliseconds, and how much memory the
/// searches on it may take.
#[derive(Clone, Copy, Debug, PartialEq, Eq, Structural)]
pub struct RebuildSchedule {
    pub debounce_ms: u64,
    pub min_interval_ms: u64,
    pub max_interval_ms: u64,
    pub bfs_cache_bytes: u64,
}

/// What an administrator set.
#[derive(Debug)]
pub struct InstanceConfig {
    pub rebuild_schedule: RebuildSchedule,
    pub source_repo_url: Option<String>,
}

/// The schedule as it is stored.
#[derive(Clone, Copy, Debug, PartialEq, Eq, Structural)]
pub struct ScheduleRow {
    pub rebuild_debounce_ms: i64,
    pub rebuild_min_interval_ms: i64,
    pub rebuild_max_interval_ms: i64,
    pub rebuild_bfs_cache_bytes: i64,
}

/// Reads what is stored.
pub fn load_from_row(row: &ScheduleRow, source_repo_url: Option<String>) -> (config:
    InstanceConfig)
    ensures
        config.rebuild_schedule == (RebuildSchedule {
            debounce_ms: row.rebuild_debounce_ms as u64,
            min_interval_ms: row.rebuild_min_interval_ms as u64,
            max_interval_ms: row.rebuild_max_interval_ms as u64,
            bfs_cache_bytes: row.rebuild_bfs_cache_bytes as u64,
        }),
        config.source_repo_url == source_repo_url,
{
    InstanceConfig {
        rebuild_schedule: RebuildSchedule {
            debounce_ms: row.rebuild_debounce_ms as u64,
            min_interval_ms: row.rebuild_min_interval_ms as u64,
            max_interval_ms: row.rebuild_max_interval_ms as u64,
            bfs_cache_bytes: row.rebuild_bfs_cache_bytes as u64,
        },
        source_repo_url,
    }
}

/// The stored form of a schedule.
pub open spec fn stored_schedule(s: RebuildSchedule) -> ScheduleRow {
    ScheduleRow {
        rebuild_debounce_ms: s.debounce_ms as i64,
        rebuild_min_interval_ms: s.min_interval_ms as i64,
        rebuild_max_interval_ms: s.max_interval_ms as i64,
        rebuild_bfs_cache_bytes: s.bfs_cache_bytes as i64,
    }
}

/// The stored form of a schedule.
pub fn save_rebuild_schedule(schedule: &RebuildSchedule) -> (row: ScheduleRow)
    ensures
        row == stored_schedule(*schedule),
{
    ScheduleRow {
        rebuild_debounce_ms: schedule.debounce_ms as i64,
        rebuild_min_interval_ms: schedule.min_interval_ms as i64,
        rebuild_max_interval_ms: schedule.max_interval_ms as i64,
        rebuild_bfs_cache_bytes: schedule.bfs_cache_bytes as i64,
    }
}

/// The longest address of a source repository, in characters.
pub const MAX_SOURCE_REPO_URL_LEN: usize = 2048;

/// Why an address, already trimmed, is not taken, if it is not. `parts` are
/// the parts of the URL that it writes.
pub open spec fn source_repo_refusal(trimmed: Seq<char>, parts: Option<UrlView>) -> Option<
    Failure,
> {
    if trimmed.len() == 0 {
        Some(error::told(ErrorCode::BadRequest, "source repo URL is required"@))
    } else if trimmed.len() > MAX_SOURCE_REPO_URL_LEN {
        Some(error::told(ErrorCode::BadRequest, "source repo URL is too long"@))
    } else {
        match parts {
            None => Some(error::told(ErrorCode::BadRequest, "source repo URL is invalid"@)),
            Some(p) => if p.scheme != "http"@ && p.scheme != "https"@ {
                Some(
                    error::told(ErrorCode::BadRequest, "source repo URL must use http or https"@),
                )
            } else if p.host is None || p.host->Some_0.len() == 0 {
                Some(error::told(ErrorCode::BadRequest, "source repo URL must include a host"@))
            } else {
                None
            },
        }
    }
}

/// The parts of a URL, where there is one.
pub open spec fn parts_view(parts: Option<UrlParts>) -> Option<UrlView> {
    match parts {
        Some(p) => Some(p@),
        None => None,
    }
}

/// Decides on an address, already trimmed, by the parts of the URL that it
/// writes.
pub fn judge_source_repo_url(trimmed: &str, parts: &Option<UrlParts>) -> (verdict: Result<
    (),
    AppError,
>)
    ensures
        match verdict {
            Ok(_) => source_repo_refusal(trimmed@, parts_view(*parts)) is None,
            Err(e) => source_repo_refusal(trimmed@, parts_view(*parts)) == Some(e@),
        },
{
    proof {
        reveal_strlit("");
        if trimmed@.len() == 0 {
            assert(trimmed@ =~= ""@);
        }
    }
    if same_text(trimmed, "") {
        return Err(AppError::with_message(ErrorCode::BadRequest, "source repo URL is required"));
    }
    if trimmed.unicode_len() > MAX_SOURCE_REPO_URL_LEN {
        return Err(AppError::with_message(ErrorCode::BadRequest, "source repo URL is too long"));
    }
    let p: &UrlParts = match parts {
        Some(p) => p,
        None => return Err(
            AppError::with_message(ErrorCode::BadRequest, "source repo URL is invalid"),
        ),
    };
    if !same_text(p.scheme.as_str(), "http") && !same_text(p.scheme.as_str(), "https") {
        return Err(
            AppError::with_message(
                ErrorCode::BadRequest,
                "source repo URL must use http or https",
            ),
        );
    }
    let has_host: bool = match &p.host {
        Some(h) => {
            proof {
                if h@.len() == 0 {
                    assert(h@ =~= ""@);
                }
            }
            !same_text(h.as_str(), "")
        },
        None => false,
    };
    if !has_host {
        return Err(
            AppError::with_message(ErrorCode::BadRequest, "source repo URL must include a host"),
        );
    }
    Ok(())
}

/// Takes the address of a source repository: the trimmed text.
pub fn validate_source_repo_url(raw: &str) -> (url: Result<String, AppError>)
    ensures
        match url {
            Ok(u) => u@ == text::trimmed(raw@) && source_repo_refusal(
                text::trimmed(raw@),
                web_url::url_parts(text::trimmed(raw@)),
            ) is None,
            Err(e) => source_repo_refusal(
                text::trimmed(raw@),
                web_url::url_parts(text::trimmed(raw@)),
            ) == Some(e@),
        },
{
    let trimmed: &str = raw.trim();
    let parts: Option<UrlParts> = parse_url(trimmed);
    match judge_source_repo_url(trimmed, &parts) {
        Ok(_) => Ok(trimmed.to_owned()),
        Err(e) => Err(e),
    }
}

/// Why a schedule is not taken, if it is not.
pub open spec fn schedule_refusal(s: RebuildSchedule) -> Option<Failure> {
    if !(1_000 <= s.debounce_ms <= 60_000) {
        Some(error::told(ErrorCode::BadRequest, "rebuild debounce must be between 1s and 60s"@))
    } else if !(1_000 <= s.min_interval_ms <= 3_600_000) {
        Some(
            error::told(ErrorCode::BadRequest, "rebuild min interval must be between 1s and 1h"@),
        )
    } else if !(1_000 <= s.max_interval_ms <= 3_600_000) {
        Some(
            error::told(ErrorCode::BadRequest, "rebuild max interval must be between 1s and 1h"@),
        )
    } else if s.debounce_ms > s.min_interval_ms {
        Some(error::told(ErrorCode::BadRequest, "rebuild debounce must be <= min interval"@))
    } else if s.min_interval_ms > s.max_interval_ms {
        Some(error::told(ErrorCode::BadRequest, "rebuild min interval must be <= max interval"@))
    } else if !(1_048_576 <= s.bfs_cache_bytes <= 4_294_967_296) {
        Some(
            error::told(
                ErrorCode::BadRequest,
                "BFS cache bytes must be between 1 MiB and 4 GiB"@,
            ),
        )
    } else {
        None
    }
}

/// Decides whether a schedule is taken.
pub fn validate_rebuild_schedule(schedule: &RebuildSchedule) -> (verdict: Result<(), AppError>)
    ensures
        match verdict {
            Ok(_) => schedule_refusal(*schedule) is None,
            Err(e) => schedule_refusal(*schedule) == Some(e@),
        },
{
    let debounce_ms: u64 = schedule.debounce_ms;
    let min_ms: u64 = schedule.min_interval_ms;
    let max_ms: u64 = schedule.max_interval_ms;
    if debounce_ms < 1_000 || debounce_ms > 60_000 {
        return Err(
            AppError::with_message(
                ErrorCode::BadRequest,
                "rebuild debounce must be between 1s and 60s",
            ),
        );
    }
    if min_ms < 1_000 || min_ms > 3_600_000 {
        return Err(
            AppError::with_message(
                ErrorCode::BadRequest,
                "rebuild min interval must be between 1s and 1h",
            ),
        );
    }
    if max_ms < 1_000 || max_ms > 3_600_000 {
        return Err(
            AppError::with_message(
                ErrorCode::BadRequest,
                "rebuild max interval must be between 1s and 1h",
            ),
        );
    }
    if debounce_ms > min_ms {
        return Err(
            AppError::with_message(
                ErrorCode::BadRequest,
                "rebuild debounce must be <= min interval",
            ),
        );
    }
    if min_ms > max_ms {
        return Err(
            AppError::with_message(
                ErrorCode::BadRequest,
                "rebuild min interval must be <= max interval",
            ),
        );
    }
    if schedule.bfs_cache_bytes < 1_048_576 || schedule.bfs_cache_bytes > 4_294_967_296 {
        return Err(
            AppError::with_message(
                ErrorCode::BadRequest,
                "BFS cache bytes must be between 1 MiB and 4 GiB",
            ),
        );
    }
    Ok(())
}

/// A schedule that is taken is ordered, and reads back from its stored form.
pub proof fn law_taken_schedule_is_ordered_and_reads_back(s: RebuildSchedule)
    requires
        schedule_refusal(s) is None,
    ensures
        0 < s.debounce_ms <= s.min_interval_ms <= s.max_interval_ms,
        stored_schedule(s).rebuild_debounce_ms as u64 == s.debounce_ms,
        stored_schedule(s).rebuild_min_interval_ms as u64 == s.min_interval_ms,
        stored_schedule(s).rebuild_max_interval_ms as u64 == s.max_interval_ms,
        stored_schedule(s).rebuild_bfs_cache_bytes as u64 == s.bfs_cache_bytes,
{
}

/// A schedule is taken exactly where each of its times is within its bounds,
/// none is longer than the next, and the memory is between one mebibyte and
/// four gibibytes.
pub proof fn law_schedules_within_bounds_are_taken(
    schedule: &RebuildSchedule,
    verdict: Result<(), AppError>,
)
    requires
        call_ensures(validate_rebuild_schedule, (schedule,), verdict),
    ensures
        verdict is Ok <==> 1_000 <= schedule.debounce_ms <= 60_000 && schedule.debounce_ms
            <= schedule.min_interval_ms <= schedule.max_interval_ms <= 3_600_000 && 1_048_576
            <= schedule.bfs_cache_bytes <= 4_294_967_296,
        verdict matches Err(e) ==> e.code is BadRequest,
{
    if let Err(e) = verdict {
        assert(e@.code == e.code);
    }
}

/// What is stored of a schedule that was taken is read as that schedule, and
/// the address of the source code with it.
pub proof fn law_stored_schedules_are_read(
    schedule: &RebuildSchedule,
    verdict: Result<(), AppError>,
    row: ScheduleRow,
    url: Option<String>,
    config: InstanceConfig,
)
    requires
        call_ensures(validate_rebuild_schedule, (schedule,), verdict),
        verdict is Ok,
        call_ensures(save_rebuild_schedule, (schedule,), row),
        call_ensures(load_from_row, (&row, url), config),
    ensures
        config.rebuild_schedule == *schedule,
        config.source_repo_url == url,
        row.rebuild_debounce_ms == schedule.debounce_ms,
        row.rebuild_min_interval_ms == schedule.min_interval_ms,
        row.rebuild_max_interval_ms == schedule.max_interval_ms,
        row.rebuild_bfs_cache_bytes == schedule.bfs_cache_bytes,
{
}

/// The address of a source repository is taken exactly where it is a URL of
/// the web with a host, of one to 2048 characters but for the white space
/// around it: it is then what is left without that.
pub proof fn law_web_addresses_are_taken(raw: &str, url: Result<String, AppError>)
    requires
        call_ensures(validate_source_repo_url, (raw,), url),
    ensures
        ({
            let trimmed = text::trimmed(raw@);
            &&& url is Ok <==> 1 <= trimmed.len() <= 2048 && (web_url::url_parts(
                trimmed,
            ) matches Some(p) && (p.scheme == "http"@ || p.scheme == "https"@) && (
            p.host matches Some(h) && h.len() > 0))
            &&& url matches Ok(u) ==> u@ == trimmed
            &&& url matches Err(e) ==> e.code is BadRequest
        }),
{
    if let Err(e) = url {
        assert(e@.code == e.code);
    }
}

} // verus!
