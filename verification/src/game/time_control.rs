//! Time constraints on games.

use crate::sides::Color;
use vstd::prelude::*;
use vstd::std_specs::ops::{AddSpecImpl, DivSpecImpl, MulSpecImpl, SubSpecImpl};
use vstd::string::*;

verus! {

/// A span of time, as a number of nanoseconds.
#[derive(Debug, Clone, Copy, PartialEq, Eq, Structural, Hash, PartialOrd, Ord)]
pub struct Duration {
    pub nanos: u128,
}

/// The number of nanoseconds in a second.
pub const NANOS_PER_SEC: u128 = 1_000_000_000;

/// The longest span of time: a second short of 2 to the 64th seconds, less a
/// nanosecond.
pub const MAX_NANOS: u128 = 18_446_744_073_709_551_615_999_999_999;

impl Duration {
    /// Whether the span is no longer than the longest one.
    pub open spec fn wf(self) -> bool {
        self.nanos <= MAX_NANOS
    }

    /// No time at all.
    pub fn zero() -> (r: Duration)
        ensures
            r.nanos == 0,
    {
        Duration { nanos: 0 }
    }

    /// The longest span of time.
    pub fn max() -> (r: Duration)
        ensures
            r.nanos == MAX_NANOS,
    {
        Duration { nanos: MAX_NANOS }
    }

    /// The span of the given number of seconds.
    pub fn from_secs(secs: u64) -> (r: Duration)
        ensures
            r.nanos == secs * NANOS_PER_SEC,
            r.wf(),
    {
        Duration { nanos: secs as u128 * NANOS_PER_SEC }
    }

    /// The span of the given number of milliseconds.
    pub fn from_millis(millis: u64) -> (r: Duration)
        ensures
            r.nanos == millis * 1_000_000,
            r.wf(),
    {
        Duration { nanos: millis as u128 * 1_000_000 }
    }

    /// The number of whole seconds in the span.
    pub fn as_secs(&self) -> (r: u64)
        requires
            self.wf(),
        ensures
            r == self.nanos / NANOS_PER_SEC,
    {
        (self.nanos / NANOS_PER_SEC) as u64
    }
}

impl AddSpecImpl<Duration> for Duration {
    open spec fn obeys_add_spec() -> bool {
        true
    }

    open spec fn add_req(self, rhs: Duration) -> bool {
        self.nanos + rhs.nanos <= MAX_NANOS
    }

    open spec fn add_spec(self, rhs: Duration) -> Duration {
        Duration { nanos: (self.nanos + rhs.nanos) as u128 }
    }
}

impl core::ops::Add<Duration> for Duration {
    type Output = Duration;

    fn add(self, rhs: Duration) -> (r: Duration) {
        Duration { nanos: self.nanos + rhs.nanos }
    }
}

impl SubSpecImpl<Duration> for Duration {
    open spec fn obeys_sub_spec() -> bool {
        true
    }

    open spec fn sub_req(self, rhs: Duration) -> bool {
        rhs.nanos <= self.nanos
    }

    open spec fn sub_spec(self, rhs: Duration) -> Duration {
        Duration { nanos: (self.nanos - rhs.nanos) as u128 }
    }
}

impl core::ops::Sub<Duration> for Duration {
    type Output = Duration;

    fn sub(self, rhs: Duration) -> (r: Duration) {
        Duration { nanos: self.nanos - rhs.nanos }
    }
}

impl MulSpecImpl<u32> for Duration {
    open spec fn obeys_mul_spec() -> bool {
        true
    }

    open spec fn mul_req(self, rhs: u32) -> bool {
        self.nanos * rhs <= MAX_NANOS
    }

    open spec fn mul_spec(self, rhs: u32) -> Duration {
        Duration { nanos: (self.nanos * rhs) as u128 }
    }
}

impl core::ops::Mul<u32> for Duration {
    type Output = Duration;

    fn mul(self, rhs: u32) -> (r: Duration) {
        Duration { nanos: self.nanos * (rhs as u128) }
    }
}

impl DivSpecImpl<u32> for Duration {
    open spec fn obeys_div_spec() -> bool {
        true
    }

    open spec fn div_req(self, rhs: u32) -> bool {
        rhs != 0
    }

    open spec fn div_spec(self, rhs: u32) -> Duration {
        Duration { nanos: (self.nanos as int / rhs as int) as u128 }
    }
}

impl core::ops::Div<u32> for Duration {
    type Output = Duration;

    fn div(self, rhs: u32) -> (r: Duration) {
        Duration { nanos: self.nanos / (rhs as u128) }
    }
}

/// The slot of the color in a table with one entry per color.
pub open spec fn spec_slot(color: Color) -> int {
    match color {
        Color::White => 0,
        Color::Black => 1,
    }
}

/// The slot of the color in a table with one entry per color.
pub fn slot(color: Color) -> (r: usize)
    ensures
        r == spec_slot(color),
{
    match color {
        Color::White => 0,
        Color::Black => 1,
    }
}

/// Time constraints on a game: for each color, white first, the time that
/// it has at the start, and the time that it gains with each move.
#[derive(Debug, Clone, Copy, PartialEq, Eq)]
pub struct TimeControl {
    pub base_time: [Duration; 2],
    pub increment: [Duration; 2],
}

/// The character of a digit.
pub open spec fn digit_char(digit: int) -> char {
    if digit == 0 {
        '0'
    } else if digit == 1 {
        '1'
    } else if digit == 2 {
        '2'
    } else if digit == 3 {
        '3'
    } else if digit == 4 {
        '4'
    } else if digit == 5 {
        '5'
    } else if digit == 6 {
        '6'
    } else if digit == 7 {
        '7'
    } else if digit == 8 {
        '8'
    } else {
        '9'
    }
}

/// The number in decimal notation.
pub open spec fn spec_decimal(n: nat) -> Seq<char>
    decreases n,
{
    if n < 10 {
        seq![digit_char(n as int)]
    } else {
        spec_decimal(n / 10).push(digit_char((n % 10) as int))
    }
}

/// The text of a digit.
fn digit_text(digit: u64) -> (r: &'static str)
    requires
        digit < 10,
    ensures
        r@ == seq![digit_char(digit as int)],
{
    proof {
        reveal_strlit("0");
        reveal_strlit("1");
        reveal_strlit("2");
        reveal_strlit("3");
        reveal_strlit("4");
        reveal_strlit("5");
        reveal_strlit("6");
        reveal_strlit("7");
        reveal_strlit("8");
        reveal_strlit("9");
    }
    let r = if digit == 0 {
        "0"
    } else if digit == 1 {
        "1"
    } else if digit == 2 {
        "2"
    } else if digit == 3 {
        "3"
    } else if digit == 4 {
        "4"
    } else if digit == 5 {
        "5"
    } else if digit == 6 {
        "6"
    } else if digit == 7 {
        "7"
    } else if digit == 8 {
        "8"
    } else {
        "9"
    };
    assert(r@ =~= seq![digit_char(digit as int)]);
    r
}

/// Writes the number in decimal notation.
pub fn decimal(n: u64) -> (r: String)
    ensures
        r@ == spec_decimal(n as nat),
    decreases n,
{
    if n < 10 {
        String::from_str(digit_text(n))
    } else {
        let mut text = decimal(n / 10);
        text.append(digit_text(n % 10));
        assert(text@ =~= spec_decimal(n as nat));
        text
    }
}

impl TimeControl {
    /// Whether the times of the control are no longer than the longest
    /// span.
    pub open spec fn wf(self) -> bool {
        &&& self.base_time@[0].wf()
        &&& self.base_time@[1].wf()
        &&& self.increment@[0].wf()
        &&& self.increment@[1].wf()
    }

    /// The time that the color has for its moves after 40 of them, if it
    /// made them in no time.
    pub open spec fn spec_budget(self, color: Color) -> int {
        self.base_time@[spec_slot(color)].nanos + self.increment@[spec_slot(color)].nanos * 40
    }

    /// The mean of the two colors' budgets.
    pub open spec fn spec_canonical_duration(self) -> int {
        (self.spec_budget(Color::White) + self.spec_budget(Color::Black)) / 2
    }

    /// The control with the given times for white and black.
    pub fn new_asymetric(base_time: [Duration; 2], increment: [Duration; 2]) -> (r: TimeControl)
        ensures
            r.base_time == base_time,
            r.increment == increment,
    {
        TimeControl { base_time, increment }
    }

    /// Returns the base time of the time control, if it's symmetric.
    ///
    /// If each player has a different base time, it returns `None`: read the
    /// field in that case.
    pub fn base_time(&self) -> (r: Option<Duration>)
        ensures
            r == (if self.base_time@[0] == self.base_time@[1] {
                Some(self.base_time@[0])
            } else {
                None
            }),
    {
        if self.base_time[0].nanos != self.base_time[1].nanos {
            None
        } else {
            Some(self.base_time[0])
        }
    }

    /// Similar to [`Self::base_time`], but for the increment.
    pub fn increment(&self) -> (r: Option<Duration>)
        ensures
            r == (if self.increment@[0] == self.increment@[1] {
                Some(self.increment@[0])
            } else {
                None
            }),
    {
        if self.increment[0].nanos != self.increment[1].nanos {
            None
        } else {
            Some(self.increment[0])
        }
    }

    /// The control with the same times for both colors.
    pub fn new(base_time: Duration, increment: Duration) -> (r: TimeControl)
        ensures
            r.base_time@ == seq![base_time, base_time],
            r.increment@ == seq![increment, increment],
    {
        let r = Self::new_asymetric([base_time, base_time], [increment, increment]);
        assert(r.base_time@ =~= seq![base_time, base_time]);
        assert(r.increment@ =~= seq![increment, increment]);
        r
    }

    /// The control with the same base time for both colors, and no
    /// increment.
    pub fn no_increment(base_time: Duration) -> (r: TimeControl)
        ensures
            r.base_time@ == seq![base_time, base_time],
            r.increment@ == seq![Duration { nanos: 0 }, Duration { nanos: 0 }],
    {
        Self::new(base_time, Duration::zero())
    }

    /// Constructs a time control from the format "m+s" (**m**inutes **p**lus
    /// **s**econds).
    pub fn mps(base_time_minutes: u64, increment_seconds: u64) -> (r: TimeControl)
        requires
            base_time_minutes * 60 <= u64::MAX,
        ensures
            r.base_time@ == seq![
                Duration { nanos: (base_time_minutes * 60 * NANOS_PER_SEC) as u128 },
                Duration { nanos: (base_time_minutes * 60 * NANOS_PER_SEC) as u128 },
            ],
            r.increment@ == seq![
                Duration { nanos: (increment_seconds * NANOS_PER_SEC) as u128 },
                Duration { nanos: (increment_seconds * NANOS_PER_SEC) as u128 },
            ],
            r.wf(),
    {
        Self::new(
            Duration::from_secs(base_time_minutes * 60),
            Duration::from_secs(increment_seconds),
        )
    }

    /// 1+0
    pub fn bullet() -> (r: TimeControl)
        ensures
            r.base_time@ == seq![
                Duration { nanos: 60_000_000_000 },
                Duration { nanos: 60_000_000_000 },
            ],
            r.increment@ == seq![Duration { nanos: 0 }, Duration { nanos: 0 }],
    {
        Self::mps(1, 0)
    }

    /// 3+2
    pub fn blitz() -> (r: TimeControl)
        ensures
            r.base_time@ == seq![
                Duration { nanos: 180_000_000_000 },
                Duration { nanos: 180_000_000_000 },
            ],
            r.increment@ == seq![
                Duration { nanos: 2_000_000_000 },
                Duration { nanos: 2_000_000_000 },
            ],
    {
        Self::mps(3, 2)
    }

    /// 10+5
    pub fn rapid() -> (r: TimeControl)
        ensures
            r.base_time@ == seq![
                Duration { nanos: 600_000_000_000 },
                Duration { nanos: 600_000_000_000 },
            ],
            r.increment@ == seq![
                Duration { nanos: 5_000_000_000 },
                Duration { nanos: 5_000_000_000 },
            ],
    {
        Self::mps(10, 5)
    }

    /// The longest times for both colors.
    pub fn max() -> (r: TimeControl)
        ensures
            r.base_time@ == seq![Duration { nanos: MAX_NANOS }, Duration { nanos: MAX_NANOS }],
            r.increment@ == seq![Duration { nanos: MAX_NANOS }, Duration { nanos: MAX_NANOS }],
    {
        Self::new(Duration::max(), Duration::max())
    }

    /// Some measure of an "average" duration of a game (but not actually
    /// statistically average).
    ///
    /// It is defined as the maximum time for a game that took 40 moves.
    pub fn canonical_duration(&self) -> (r: Duration)
        requires
            self.spec_budget(Color::White) + self.spec_budget(Color::Black) <= MAX_NANOS,
        ensures
            r.nanos == self.spec_canonical_duration(),
    {
        let white = self.base_time[slot(Color::White)] + self.increment[slot(Color::White)] * 40;
        let black = self.base_time[slot(Color::Black)] + self.increment[slot(Color::Black)] * 40;

        (white + black) / 2
    }

    /// The control in the format "m+s", for a control with the same times
    /// for both colors.
    pub fn formatted(&self) -> (r: String)
        requires
            self.wf(),
            self.base_time@[0] == self.base_time@[1],
            self.increment@[0] == self.increment@[1],
        ensures
            r@ == spec_decimal((self.base_time@[0].nanos / NANOS_PER_SEC / 60) as nat) + seq!['+']
                + spec_decimal((self.increment@[0].nanos / NANOS_PER_SEC) as nat),
    {
        let base_time = self.base_time[0];
        let increment = self.increment[0];
        let mut text = decimal(base_time.as_secs() / 60);
        proof {
            reveal_strlit("+");
        }
        text.append("+");
        let seconds = decimal(increment.as_secs());
        text.append(seconds.as_str());
        assert(text@ =~= spec_decimal((self.base_time@[0].nanos / NANOS_PER_SEC / 60) as nat)
            + seq!['+'] + spec_decimal((self.increment@[0].nanos / NANOS_PER_SEC) as nat));
        text
    }

    /// The category of the control, by its canonical duration.
    pub fn category(&self) -> (r: Category)
        requires
            self.spec_budget(Color::White) + self.spec_budget(Color::Black) <= MAX_NANOS,
        ensures
            r == Category::spec_classify(self.spec_canonical_duration() / (NANOS_PER_SEC as int)),
    {
        Category::classify(self.canonical_duration())
    }
}

/// Broad categories you can put [`TimeControl`]s in.
#[derive(Debug, Clone, Copy, PartialEq, Eq, Structural)]
pub enum Category {
    UltraBullet,
    Bullet,
    Blitz,
    Rapid,
    Classical,
}

impl Category {
    /// The category of a game of the given number of seconds: ultra bullet
    /// below half a minute, bullet below 3 minutes, blitz below 8, rapid
    /// below 25, classical from there.
    pub open spec fn spec_classify(secs: int) -> Category {
        if secs < 30 {
            Category::UltraBullet
        } else if secs < 180 {
            Category::Bullet
        } else if secs < 480 {
            Category::Blitz
        } else if secs < 1500 {
            Category::Rapid
        } else {
            Category::Classical
        }
    }

    /// Classifies a [`TimeControl::canonical_duration`].
    pub fn classify(duration: Duration) -> (r: Category)
        requires
            duration.wf(),
        ensures
            r == Self::spec_classify(duration.nanos as int / (NANOS_PER_SEC as int)),
    {
        let secs: u64 = duration.as_secs();
        if secs < 30 {
            Category::UltraBullet
        } else if secs < 180 {
            Category::Bullet
        } else if secs < 480 {
            Category::Blitz
        } else if secs < 1500 {
            Category::Rapid
        } else {
            Category::Classical
        }
    }

    /// The name of the category.
    pub fn name(&self) -> (r: &'static str)
        ensures
            r@ == (match *self {
                Category::UltraBullet => "UltraBullet"@,
                Category::Bullet => "Bullet"@,
                Category::Blitz => "Blitz"@,
                Category::Rapid => "Rapid"@,
                Category::Classical => "Classical"@,
            }),
    {
        match self {
            Category::UltraBullet => "UltraBullet",
            Category::Bullet => "Bullet",
            Category::Blitz => "Blitz",
            Category::Rapid => "Rapid",
            Category::Classical => "Classical",
        }
    }
}

} // verus!
