//! User-adjustable parameters and the template-path choice rule.
//!
//! Loading and persisting the configuration, and testing whether a path
//! exists on disk, happen outside the library; the rules about what the
//! values mean — defaults, blank-path handling, and which candidate path a
//! run uses — live here.

use vstd::prelude::*;

use crate::worker::WorkerConfig;

verus! {

/// The stored configuration. The threshold is in millionths, matching
/// detection scores; times are in milliseconds.
#[derive(Clone, Debug)]
pub struct AppConfig {
    pub threshold_micro: i64,
    pub interval_ms: u64,
    pub cooldown_ms: u64,
    pub monitor_index: usize,
    pub click_offset_x: i32,
    pub click_offset_y: i32,
    pub template_path: Option<String>,
}

impl Default for AppConfig {
    /// The out-of-the-box configuration: a 0.88 score threshold, 120 ms
    /// polling, a 4 s cooldown, no offsets, the first monitor, and no
    /// configured template path.
    fn default() -> (r: AppConfig)
        ensures
            r.threshold_micro == 880_000,
            r.interval_ms == 120,
            r.cooldown_ms == 4_000,
            r.monitor_index == 0,
            r.click_offset_x == 0,
            r.click_offset_y == 0,
            r.template_path is None,
    {
        AppConfig {
            threshold_micro: 880_000,
            interval_ms: 120,
            cooldown_ms: 4_000,
            monitor_index: 0,
            click_offset_x: 0,
            click_offset_y: 0,
            template_path: None,
        }
    }
}

/// What `str::trim` returns: the characters with leading and trailing
/// whitespace removed.
pub uninterp spec fn trim_of(s: Seq<char>) -> Seq<char>;

/// Relies on str::trim: returns the string with leading and trailing
/// whitespace removed; the result depends on the characters alone.
#[verifier::external_body]
fn trimmed(s: &str) -> (r: String)
    ensures
        r@ == trim_of(s@),
        s@.len() == 0 ==> r@.len() == 0,
{
    String::from(s.trim())
}

impl AppConfig {
    /// Set or clear the configured template path from user input: a blank
    /// string clears it, anything else is stored as given.
    pub fn set_template_path_from_str(&mut self, value: &str)
        ensures
            trim_of(value@).len() == 0 ==> final(self).template_path is None,
            trim_of(value@).len() != 0 ==> (final(self).template_path matches Some(p) && p@
                == value@),
            final(self).threshold_micro == old(self).threshold_micro,
            final(self).interval_ms == old(self).interval_ms,
            final(self).cooldown_ms == old(self).cooldown_ms,
            final(self).monitor_index == old(self).monitor_index,
            final(self).click_offset_x == old(self).click_offset_x,
            final(self).click_offset_y == old(self).click_offset_y,
    {
        let t = trimmed(value);
        if t.as_str().is_empty() {
            self.template_path = None;
        } else {
            self.template_path = Some(String::from_str(value));
        }
    }

    /// The snapshot a worker run takes of this configuration.
    pub fn worker_config(&self) -> (r: WorkerConfig)
        ensures
            r.threshold_micro == self.threshold_micro,
            r.interval_ms == self.interval_ms,
            r.cooldown_ms == self.cooldown_ms,
            r.click_offset_x == self.click_offset_x,
            r.click_offset_y == self.click_offset_y,
    {
        WorkerConfig {
            threshold_micro: self.threshold_micro,
            interval_ms: self.interval_ms,
            cooldown_ms: self.cooldown_ms,
            click_offset_x: self.click_offset_x,
            click_offset_y: self.click_offset_y,
        }
    }
}

/// Why no template path could be chosen.
#[derive(Clone, Copy, PartialEq, Eq, Structural, Debug)]
pub enum TemplateLookupError {
    /// A path is configured but nothing exists there.
    ConfiguredMissing,
    /// No path is configured and no default candidate exists.
    NotFound,
}

/// Index of the first existing candidate, if any.
pub open spec fn spec_first_existing(exists: Seq<bool>) -> Option<int>
    decreases exists.len(),
{
    if exists.len() == 0 {
        None
    } else if exists[0] {
        Some(0)
    } else {
        match spec_first_existing(exists.drop_first()) {
            None => None,
            Some(i) => Some(i + 1),
        }
    }
}

/// Which template path a run uses: the configured path when one is set
/// (an error if nothing exists there), otherwise the first existing
/// default candidate (an error if none exists). The caller supplies the
/// existence facts; nothing here touches the file system.
#[verifier::loop_isolation(false)]
pub fn choose_template_path(
    configured: &Option<String>,
    configured_exists: bool,
    candidates: &Vec<String>,
    candidate_exists: &Vec<bool>,
) -> (r: Result<String, TemplateLookupError>)
    requires
        candidates@.len() == candidate_exists@.len(),
    ensures
        configured matches Some(p) ==> configured_exists ==> (r matches Ok(q) && q@ == p@),
        configured is Some ==> !configured_exists ==> r == Result::<
            String,
            TemplateLookupError,
        >::Err(TemplateLookupError::ConfiguredMissing),
        configured is None ==> match spec_first_existing(candidate_exists@) {
            Some(i) => r matches Ok(q) && q@ == candidates@[i]@,
            None => r == Result::<String, TemplateLookupError>::Err(
                TemplateLookupError::NotFound,
            ),
        },
{
    match configured {
        Some(p) => {
            if configured_exists {
                Ok(p.clone())
            } else {
                Err(TemplateLookupError::ConfiguredMissing)
            }
        },
        None => {
            let n = candidates.len();
            let mut i: usize = 0;
            proof {
                assert(candidate_exists@.skip(0) =~= candidate_exists@);
            }
            while i < n
                invariant
                    i <= n,
                    n == candidates@.len() == candidate_exists@.len(),
                    spec_first_existing(candidate_exists@.skip(i as int)) matches Some(j)
                        ==> spec_first_existing(candidate_exists@) == Some(j + i),
                    spec_first_existing(candidate_exists@) is Some ==> spec_first_existing(
                        candidate_exists@.skip(i as int),
                    ) is Some,
                decreases n - i,
            {
                if candidate_exists[i] {
                    proof {
                        assert(candidate_exists@.skip(i as int)[0] == candidate_exists@[i as int]);
                        assert(spec_first_existing(candidate_exists@.skip(i as int)) == Some(0int));
                    }
                    return Ok(candidates[i].clone());
                }
                proof {
                    let s = candidate_exists@.skip(i as int);
                    assert(s.drop_first() =~= candidate_exists@.skip(i as int + 1));
                    assert(s[0] == candidate_exists@[i as int]);
                }
                i = i + 1;
            }
            proof {
                assert(candidate_exists@.skip(n as int).len() == 0);
            }
            Err(TemplateLookupError::NotFound)
        },
    }
}

} // verus!
