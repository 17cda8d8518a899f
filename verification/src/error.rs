//! Error accounting for window-manager operations and a health verdict.

use vstd::prelude::*;

verus! {

/// Counts of failed operations by category.
pub struct ErrorTracker {
    x11_errors: u64,
    compositor_errors: u64,
    window_errors: u64,
}

/// Category under which a failure is counted.
#[derive(Debug, Clone, Copy, PartialEq, Eq, Structural)]
pub enum ErrorCategory {
    X11,
    Compositor,
    Window,
}

/// Snapshot of the error counts and whether they are below the thresholds.
#[derive(Debug, Clone, Copy, PartialEq, Eq, Structural)]
pub struct HealthStatus {
    pub x11_errors: u64,
    pub compositor_errors: u64,
    pub window_errors: u64,
    pub is_healthy: bool,
}

/// Counter increment that wraps around at the top of `u64`.
pub open spec fn wrap_inc(v: u64) -> u64 {
    if v == u64::MAX { 0 } else { (v + 1) as u64 }
}

/// The system is healthy while there are fewer than 10 X11 errors, fewer
/// than 5 compositor errors and fewer than 10 window errors.
pub open spec fn spec_is_healthy(x11: u64, comp: u64, win: u64) -> bool {
    x11 < 10 && comp < 5 && win < 10
}

impl ErrorTracker {
    pub closed spec fn x11_count(&self) -> u64 {
        self.x11_errors
    }

    pub closed spec fn compositor_count(&self) -> u64 {
        self.compositor_errors
    }

    pub closed spec fn window_count(&self) -> u64 {
        self.window_errors
    }

    /// A tracker with all counts at zero.
    pub fn new() -> (r: Self)
        ensures
            r.x11_count() == 0,
            r.compositor_count() == 0,
            r.window_count() == 0,
    {
        ErrorTracker { x11_errors: 0, compositor_errors: 0, window_errors: 0 }
    }

    /// Counts a failed X11 operation.
    pub fn record_x11_error<E>(&mut self, operation: &str, error: E)
        ensures
            final(self).x11_count() == wrap_inc(old(self).x11_count()),
            final(self).compositor_count() == old(self).compositor_count(),
            final(self).window_count() == old(self).window_count(),
    {
        self.x11_errors = self.x11_errors.wrapping_add(1);
    }

    /// Counts a failed compositor operation.
    pub fn record_compositor_error<E>(&mut self, operation: &str, error: E)
        ensures
            final(self).compositor_count() == wrap_inc(old(self).compositor_count()),
            final(self).x11_count() == old(self).x11_count(),
            final(self).window_count() == old(self).window_count(),
    {
        self.compositor_errors = self.compositor_errors.wrapping_add(1);
    }

    /// Counts a failed window-management operation.
    pub fn record_window_error<E>(&mut self, operation: &str, error: E)
        ensures
            final(self).window_count() == wrap_inc(old(self).window_count()),
            final(self).x11_count() == old(self).x11_count(),
            final(self).compositor_count() == old(self).compositor_count(),
    {
        self.window_errors = self.window_errors.wrapping_add(1);
    }

    /// Passes a success through; counts a failure under `category` and gives `None`.
    pub fn warn_if_failed<T, E>(&mut self, result: Result<T, E>, operation: &str, category: ErrorCategory) -> (r: Option<T>)
        ensures
            result is Ok ==> r == Some(result->Ok_0) && final(self).x11_count() == old(self).x11_count()
                && final(self).compositor_count() == old(self).compositor_count() && final(self).window_count()
                == old(self).window_count(),
            result is Err ==> r is None,
            result is Err && category == ErrorCategory::X11 ==> final(self).x11_count() == wrap_inc(
                old(self).x11_count(),
            ) && final(self).compositor_count() == old(self).compositor_count() && final(self).window_count()
                == old(self).window_count(),
            result is Err && category == ErrorCategory::Compositor ==> final(self).compositor_count() == wrap_inc(
                old(self).compositor_count(),
            ) && final(self).x11_count() == old(self).x11_count() && final(self).window_count()
                == old(self).window_count(),
            result is Err && category == ErrorCategory::Window ==> final(self).window_count() == wrap_inc(
                old(self).window_count(),
            ) && final(self).x11_count() == old(self).x11_count() && final(self).compositor_count()
                == old(self).compositor_count(),
    {
        match result {
            Ok(v) => Some(v),
            Err(e) => {
                match category {
                    ErrorCategory::X11 => self.record_x11_error(operation, e),
                    ErrorCategory::Compositor => self.record_compositor_error(operation, e),
                    ErrorCategory::Window => self.record_window_error(operation, e),
                }
                None
            },
        }
    }

    /// The current counts and the health verdict.
    pub fn health_check(&self) -> (r: HealthStatus)
        ensures
            r.x11_errors == self.x11_count(),
            r.compositor_errors == self.compositor_count(),
            r.window_errors == self.window_count(),
            r.is_healthy == spec_is_healthy(self.x11_count(), self.compositor_count(), self.window_count()),
    {
        let x11 = self.x11_errors;
        let comp = self.compositor_errors;
        let win = self.window_errors;
        HealthStatus { x11_errors: x11, compositor_errors: comp, window_errors: win, is_healthy: x11 < 10 && comp < 5 && win < 10 }
    }
}

/// Ignores the outcome of a clean-up operation.
pub fn log_and_ignore<T, E>(result: Result<T, E>, operation: &str) {
}

/// The value of a success, `None` for a failure.
pub fn log_warn<T, E>(result: Result<T, E>, operation: &str) -> (r: Option<T>)
    ensures
        r == match result {
            Ok(v) => Some(v),
            Err(_) => None::<T>,
        },
{
    match result {
        Ok(v) => Some(v),
        Err(_) => None,
    }
}

} // verus!
