//! The clock tool's state: which parts of the clock to show and when to
//! leave. The terminal loop around it only draws and forwards key presses.

use vstd::prelude::*;

verus! {

/// When no part is asked for, every part is shown; otherwise the choice
/// stands as given.
pub fn resolve_show_flags(show_weekday: bool, show_date: bool, show_time: bool) -> (r: (
    bool,
    bool,
    bool,
))
    ensures
        !show_weekday && !show_date && !show_time ==> r == ((true, true, true)),
        show_weekday || show_date || show_time ==> r == ((show_weekday, show_date, show_time)),
{
    if !show_weekday && !show_date && !show_time {
        (true, true, true)
    } else {
        (show_weekday, show_date, show_time)
    }
}

/// The clock application's state.
pub struct App {
    exit: bool,
    show_weekday: bool,
    show_date: bool,
    show_time: bool,
    show_seconds: bool,
}

impl App {
    /// Whether the main loop should stop.
    pub closed spec fn exited(&self) -> bool {
        self.exit
    }

    /// The four display choices, as one tuple.
    pub closed spec fn shown(&self) -> (bool, bool, bool, bool) {
        (self.show_weekday, self.show_date, self.show_time, self.show_seconds)
    }

    /// Takes over the display choices for a run; whether to exit is
    /// untouched.
    pub fn configure(
        &mut self,
        show_weekday: bool,
        show_date: bool,
        show_time: bool,
        show_seconds: bool,
    )
        ensures
            final(self).shown() == ((show_weekday, show_date, show_time, show_seconds)),
            final(self).exited() == old(self).exited(),
    {
        self.show_weekday = show_weekday;
        self.show_date = show_date;
        self.show_time = show_time;
        self.show_seconds = show_seconds;
    }

    /// Asks the main loop to stop.
    pub fn exit(&mut self)
        ensures
            final(self).exited(),
            final(self).shown() == old(self).shown(),
    {
        self.exit = true;
    }

    /// The key decision of the event loop: `q` leaves, everything else is
    /// ignored.
    pub fn on_key_char(&mut self, c: char)
        ensures
            final(self).exited() == (old(self).exited() || c == 'q'),
            final(self).shown() == old(self).shown(),
    {
        if c == 'q' {
            self.exit();
        }
    }

    /// Whether the main loop should stop.
    pub fn should_exit(&self) -> (r: bool)
        ensures
            r == self.exited(),
    {
        self.exit
    }

    /// Whether the weekday line is shown.
    pub fn shows_weekday(&self) -> (r: bool)
        ensures
            r == self.shown().0,
    {
        self.show_weekday
    }

    /// Whether the date line is shown.
    pub fn shows_date(&self) -> (r: bool)
        ensures
            r == self.shown().1,
    {
        self.show_date
    }

    /// Whether the time line is shown.
    pub fn shows_time(&self) -> (r: bool)
        ensures
            r == self.shown().2,
    {
        self.show_time
    }

    /// Whether seconds are part of the time line.
    pub fn shows_seconds(&self) -> (r: bool)
        ensures
            r == self.shown().3,
    {
        self.show_seconds
    }
}

impl Default for App {
    /// A fresh application: nothing shown yet, not exiting.
    fn default() -> (r: Self)
        ensures
            !r.exited(),
            r.shown() == ((false, false, false, false)),
    {
        App {
            exit: false,
            show_weekday: false,
            show_date: false,
            show_time: false,
            show_seconds: false,
        }
    }
}

} // verus!
