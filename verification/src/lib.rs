//! Resolution of the hardware serial numbers of physical storage devices.
//!
//! The crate holds the decisions of the resolution: the fixed-layout records of
//! the device-control protocols, the decoders that turn driver buffers into
//! serial strings, the three access strategies as state machines over the
//! replies of a device-control transport, and the aggregation of what the
//! strategies found. Opening handles and issuing control requests is left to
//! the caller, who performs each action that a state machine asks for and hands
//! back what the device replied.

use std::time::Duration;
use vstd::prelude::*;
use vstd::string::StringExecFns;
use crate::ioctl_operations::ERROR_NOT_SUPPORTED;
use crate::text::{decimal_text, is_serial_char, push_decimal, serial_char};

pub mod ascii;
pub mod ioctl_operations;
pub mod session;
pub mod structs;
pub mod text;
pub mod utils;

verus! {

/// One of the three ways to reach a device, in the order in which they are
/// tried.
#[derive(Clone, Copy, Debug, PartialEq, Eq, Structural)]
pub enum Strategy {
    /// The identify command on a handle with full read and write access.
    Admin,
    /// The identify command through SMART.
    Smart,
    /// A property query on a handle without access rights.
    Zero,
}

/// What a strategy that ran came to.
#[derive(Debug)]
pub enum Finding {
    /// A candidate serial number.
    Candidate { serial: String },
    /// Nothing; `error_code` is the last error code of the platform after it.
    NoData { error_code: u32 },
}

/// What a strategy that ran came to, as plain values.
pub enum FindingView {
    Candidate { serial: Seq<char> },
    NoData { error_code: u32 },
}

impl View for Finding {
    type V = FindingView;

    open spec fn view(&self) -> FindingView {
        match *self {
            Finding::Candidate { serial } => FindingView::Candidate { serial: serial@ },
            Finding::NoData { error_code } => FindingView::NoData { error_code },
        }
    }
}

/// How one attempt to read a drive with one strategy went.
#[derive(Debug)]
pub enum Attempt {
    /// The handle could not be opened at the access level of the strategy.
    Denied,
    /// The strategy ran on an open handle for the time `elapsed`.
    Ran { finding: Finding, elapsed: Duration },
}

/// How one attempt went, as plain values.
pub enum AttemptView {
    Denied,
    Ran { finding: FindingView, elapsed: Duration },
}

impl View for Attempt {
    type V = AttemptView;

    open spec fn view(&self) -> AttemptView {
        match *self {
            Attempt::Denied => AttemptView::Denied,
            Attempt::Ran { finding, elapsed } => AttemptView::Ran { finding: finding@, elapsed },
        }
    }
}

/// What a resolution has recorded, as plain sequences.
pub struct Report {
    pub serial_numbers: Seq<Seq<char>>,
    pub errors: Seq<Seq<char>>,
    pub skips: Seq<Seq<char>>,
    pub timings: Seq<(usize, Seq<char>, Duration)>,
}

/// A valid serial number: not empty, and made of letters, numbers, underscores
/// and hyphens only.
pub open spec fn is_valid_serial(serial: Seq<char>) -> bool {
    serial.len() > 0 && forall|i: int| 0 <= i < serial.len() ==> is_serial_char(#[trigger] serial[i])
}

/// How a message names a strategy.
pub open spec fn strategy_phrase(strategy: Strategy) -> Seq<char> {
    match strategy {
        Strategy::Admin => "with admin rights"@,
        Strategy::Smart => "using SMART"@,
        Strategy::Zero => "with zero rights"@,
    }
}

/// How a timing label names a strategy.
pub open spec fn strategy_tag(strategy: Strategy) -> Seq<char> {
    match strategy {
        Strategy::Admin => "Trd#A"@,
        Strategy::Smart => "Trd#SM"@,
        Strategy::Zero => "Trd#Z"@,
    }
}

/// The error that is recorded for a candidate that is no valid serial number.
pub open spec fn invalid_serial_message(b_drive_num: u8, strategy: Strategy) -> Seq<char> {
    "Drive "@ + decimal_text(b_drive_num as nat) + ": Invalid serial number received "@
        + strategy_phrase(strategy)
}

/// The error that is recorded when the elevated-access strategy finds nothing.
pub open spec fn failure_message(b_drive_num: u8, error_code: u32) -> Seq<char> {
    "Drive "@ + decimal_text(b_drive_num as nat)
        + ": Failed to get serial number with admin rights, error code: "@ + decimal_text(
        error_code as nat,
    )
}

/// The skip that is recorded when the driver does not support the
/// elevated-access strategy.
pub open spec fn unsupported_message(b_drive_num: u8) -> Seq<char> {
    "Drive "@ + decimal_text(b_drive_num as nat) + ": Admin rights method not supported. Skipping."@
}

/// The skip that is recorded when a handle could not be opened.
pub open spec fn denied_message(b_drive_num: u8, strategy: Strategy) -> Seq<char> {
    "Drive "@ + decimal_text(b_drive_num as nat) + ": No access "@ + strategy_phrase(strategy)
        + ". Skipping."@
}

/// The label of the timing of one attempt.
pub open spec fn timing_label(b_drive_num: u8, strategy: Strategy) -> Seq<char> {
    "hd"@ + decimal_text(b_drive_num as nat) + strategy_tag(strategy)
}

/// The path of the physical drive with the index `b_drive_num`.
pub open spec fn drive_path(b_drive_num: u8) -> Seq<char> {
    "\\\\.\\PhysicalDrive"@ + decimal_text(b_drive_num as nat)
}

/// The report after a handle could not be opened: a skip is recorded.
pub open spec fn skipped(before: Report, b_drive_num: u8, strategy: Strategy) -> Report {
    Report { skips: before.skips.push(denied_message(b_drive_num, strategy)), ..before }
}

/// The report after what a strategy came to was noted: a valid candidate as a
/// serial number and any other as an error; nothing found as an error for the
/// elevated-access strategy, unless the driver does not support it, which is
/// a skip, and not at all for the other strategies.
pub open spec fn noted(before: Report, b_drive_num: u8, strategy: Strategy, finding: FindingView)
    -> Report {
    match finding {
        FindingView::Candidate { serial } => if is_valid_serial(serial) {
            Report { serial_numbers: before.serial_numbers.push(serial), ..before }
        } else {
            Report {
                errors: before.errors.push(invalid_serial_message(b_drive_num, strategy)),
                ..before
            }
        },
        FindingView::NoData { error_code } => if strategy != Strategy::Admin {
            before
        } else if error_code == ERROR_NOT_SUPPORTED {
            Report { skips: before.skips.push(unsupported_message(b_drive_num)), ..before }
        } else {
            Report {
                errors: before.errors.push(failure_message(b_drive_num, error_code)),
                ..before
            }
        },
    }
}

/// The report after the time that an attempt took was noted.
pub open spec fn timed(before: Report, b_drive_num: u8, strategy: Strategy, elapsed: Duration)
    -> Report {
    Report {
        timings: before.timings.push(
            (b_drive_num as usize, timing_label(b_drive_num, strategy), elapsed),
        ),
        ..before
    }
}

/// The report after an attempt was recorded: a skip where the handle could
/// not be opened, and else what the strategy came to and the time it took.
pub open spec fn recorded(
    before: Report,
    b_drive_num: u8,
    strategy: Strategy,
    attempt: AttemptView,
) -> Report {
    match attempt {
        AttemptView::Denied => skipped(before, b_drive_num, strategy),
        AttemptView::Ran { finding, elapsed } => timed(
            noted(before, b_drive_num, strategy, finding),
            b_drive_num,
            strategy,
            elapsed,
        ),
    }
}

/// The report `base` with the records of `other` appended.
pub open spec fn absorbed(base: Report, other: Report) -> Report {
    Report {
        serial_numbers: base.serial_numbers + other.serial_numbers,
        errors: base.errors + other.errors,
        skips: base.skips + other.skips,
        timings: base.timings + other.timings,
    }
}

/// The report `base` with the records of each of `drives` appended in turn.
pub open spec fn merged(base: Report, drives: Seq<Report>) -> Report
    decreases drives.len(),
{
    if drives.len() == 0 {
        base
    } else {
        absorbed(merged(base, drives.drop_last()), drives.last())
    }
}

/// The reports of a sequence of resolutions.
pub open spec fn reports(drives: Seq<HardDriveSerial>) -> Seq<Report> {
    drives.map_values(|d: HardDriveSerial| d@)
}

/// What a resolution returns: the serial numbers, if it has any, and else
/// its messages, the errors before the skips.
pub open spec fn outcome(report: Report) -> Result<Seq<Seq<char>>, Seq<Seq<char>>> {
    if report.serial_numbers.len() > 0 {
        Ok(report.serial_numbers)
    } else {
        Err(report.errors + report.skips)
    }
}

/// The serial numbers of a report, as a set.
pub open spec fn serial_set(report: Report) -> Set<Seq<char>> {
    report.serial_numbers.to_set()
}

/// Whether every serial number of the report is valid.
pub open spec fn all_valid(report: Report) -> bool {
    forall|i: int|
        0 <= i < report.serial_numbers.len() ==> is_valid_serial(#[trigger] report.serial_numbers[i])
}

/// The serial numbers that the reports hold, in the order of the reports.
pub open spec fn gathered(drives: Seq<Report>) -> Seq<Seq<char>>
    decreases drives.len(),
{
    if drives.len() == 0 {
        Seq::empty()
    } else {
        gathered(drives.drop_last()) + drives.last().serial_numbers
    }
}

/// The serial numbers after a merge are those that were there, followed by
/// those of the drives in their order.
pub proof fn lemma_merged_serials(base: Report, drives: Seq<Report>)
    ensures
        merged(base, drives).serial_numbers == base.serial_numbers + gathered(drives),
    decreases drives.len(),
{
    if drives.len() > 0 {
        lemma_merged_serials(base, drives.drop_last());
    }
    assert(merged(base, drives).serial_numbers =~= base.serial_numbers + gathered(drives));
}

/// A serial number is among those gathered exactly if one of the reports
/// holds it.
pub proof fn lemma_gathered_contains(drives: Seq<Report>, serial: Seq<char>)
    ensures
        gathered(drives).contains(serial) <==> exists|i: int|
            0 <= i < drives.len() && (#[trigger] drives[i]).serial_numbers.contains(serial),
    decreases drives.len(),
{
    if drives.len() > 0 {
        let front = drives.drop_last();
        lemma_gathered_contains(front, serial);
        vstd::seq_lib::lemma_seq_concat_contains_all_elements(
            gathered(front),
            drives.last().serial_numbers,
            serial,
        );
        if gathered(drives).contains(serial) {
            if gathered(front).contains(serial) {
                let i = choose|i: int|
                    0 <= i < front.len() && (#[trigger] front[i]).serial_numbers.contains(serial);
                assert(drives[i] == front[i]);
            } else {
                assert(drives[drives.len() - 1].serial_numbers.contains(serial));
            }
        }
        if exists|i: int|
            0 <= i < drives.len() && (#[trigger] drives[i]).serial_numbers.contains(serial) {
            let i = choose|i: int|
                0 <= i < drives.len() && (#[trigger] drives[i]).serial_numbers.contains(serial);
            if i < front.len() {
                assert(front[i] == drives[i]);
            }
        }
    }
}

/// Resolving again finds the same set of serial numbers.
///
/// A resolution that has gathered the records of a set of drives and then
/// gathers the records of the same drives once more holds every serial number
/// a second time, and no other: the set of its serial numbers is the same, and
/// it succeeds the second time exactly if it did the first.
pub proof fn lemma_resolving_again(base: Report, drives: Seq<Report>)
    ensures
        serial_set(merged(merged(base, drives), drives)) == serial_set(merged(base, drives)),
        outcome(merged(merged(base, drives), drives)) is Ok <==> outcome(
            merged(base, drives),
        ) is Ok,
{
    let once = merged(base, drives);
    let twice = merged(once, drives);
    lemma_merged_serials(base, drives);
    lemma_merged_serials(once, drives);
    assert forall|x: Seq<char>| serial_set(twice).contains(x) <==> serial_set(once).contains(
        x,
    ) by {
        vstd::seq_lib::lemma_seq_concat_contains_all_elements(
            once.serial_numbers,
            gathered(drives),
            x,
        );
        vstd::seq_lib::lemma_seq_concat_contains_all_elements(
            base.serial_numbers,
            gathered(drives),
            x,
        );
    }
    assert(serial_set(twice) =~= serial_set(once));
}

/// The set of serial numbers does not depend on the order in which the
/// drives are gathered.
pub proof fn lemma_order_of_drives(base: Report, first: Seq<Report>, second: Seq<Report>)
    requires
        first.to_multiset() == second.to_multiset(),
    ensures
        serial_set(merged(base, first)) == serial_set(merged(base, second)),
{
    lemma_merged_serials(base, first);
    lemma_merged_serials(base, second);
    first.to_multiset_ensures();
    second.to_multiset_ensures();
    assert forall|x: Seq<char>| gathered(first).contains(x) <==> gathered(second).contains(
        x,
    ) by {
        lemma_gathered_contains(first, x);
        lemma_gathered_contains(second, x);
        if gathered(first).contains(x) {
            let i = choose|i: int|
                0 <= i < first.len() && (#[trigger] first[i]).serial_numbers.contains(x);
            assert(first.contains(first[i]));
            assert(second.to_multiset().count(first[i]) > 0);
            assert(second.contains(first[i]));
            let j = choose|j: int| 0 <= j < second.len() && second[j] == first[i];
            assert(second[j].serial_numbers.contains(x));
        }
        if gathered(second).contains(x) {
            let i = choose|i: int|
                0 <= i < second.len() && (#[trigger] second[i]).serial_numbers.contains(x);
            assert(second.contains(second[i]));
            assert(first.to_multiset().count(second[i]) > 0);
            assert(first.contains(second[i]));
            let j = choose|j: int| 0 <= j < first.len() && first[j] == second[i];
            assert(first[j].serial_numbers.contains(x));
        }
    }
    assert forall|x: Seq<char>| serial_set(merged(base, first)).contains(x) <==> serial_set(
        merged(base, second),
    ).contains(x) by {
        vstd::seq_lib::lemma_seq_concat_contains_all_elements(
            base.serial_numbers,
            gathered(first),
            x,
        );
        vstd::seq_lib::lemma_seq_concat_contains_all_elements(
            base.serial_numbers,
            gathered(second),
            x,
        );
    }
    assert(serial_set(merged(base, first)) =~= serial_set(merged(base, second)));
}

/// A resolution succeeds exactly if it held a serial number before or one of
/// the drives brings one. A drive that brings nothing, and one that brings
/// errors or skips only, takes no success away.
pub proof fn lemma_success(base: Report, drives: Seq<Report>)
    ensures
        outcome(merged(base, drives)) is Ok <==> base.serial_numbers.len() > 0 || exists|i: int|
            0 <= i < drives.len() && (#[trigger] drives[i]).serial_numbers.len() > 0,
    decreases drives.len(),
{
    if drives.len() > 0 {
        let front = drives.drop_last();
        lemma_success(base, front);
        if exists|i: int| 0 <= i < front.len() && (#[trigger] front[i]).serial_numbers.len() > 0 {
            let i = choose|i: int|
                0 <= i < front.len() && (#[trigger] front[i]).serial_numbers.len() > 0;
            assert(drives[i] == front[i]);
        }
        if exists|i: int| 0 <= i < drives.len() && (#[trigger] drives[i]).serial_numbers.len() > 0 {
            let i = choose|i: int|
                0 <= i < drives.len() && (#[trigger] drives[i]).serial_numbers.len() > 0;
            if i < front.len() {
                assert(front[i] == drives[i]);
            } else {
                assert(drives.last() == drives[i]);
            }
        }
        if drives.last().serial_numbers.len() > 0 {
            assert(drives[drives.len() - 1].serial_numbers.len() > 0);
        }
    }
}

/// Recording an attempt keeps every serial number valid: a candidate that
/// fails validation is never taken up among the serial numbers.
pub proof fn lemma_recorded_valid(
    before: Report,
    b_drive_num: u8,
    strategy: Strategy,
    attempt: AttemptView,
)
    requires
        all_valid(before),
    ensures
        all_valid(recorded(before, b_drive_num, strategy, attempt)),
        attempt is Denied ==> recorded(before, b_drive_num, strategy, attempt).serial_numbers
            == before.serial_numbers,
{
}

/// Gathering the records of drives whose serial numbers are valid keeps
/// every serial number valid.
pub proof fn lemma_merged_valid(base: Report, drives: Seq<Report>)
    requires
        all_valid(base),
        forall|i: int| 0 <= i < drives.len() ==> all_valid(#[trigger] drives[i]),
    ensures
        all_valid(merged(base, drives)),
    decreases drives.len(),
{
    if drives.len() > 0 {
        let front = drives.drop_last();
        assert forall|i: int| 0 <= i < front.len() implies all_valid(#[trigger] front[i]) by {
            assert(front[i] == drives[i]);
        }
        lemma_merged_valid(base, front);
        assert(all_valid(drives[drives.len() - 1]));
    }
}

/// The serial numbers that a resolution has found, with the errors, skips and
/// timings that it has recorded on the way.
#[derive(Debug)]
pub struct HardDriveSerial {
    serial_numbers: Vec<String>,
    errors: Vec<String>,
    skips: Vec<String>,
    timings: Vec<(usize, String, Duration)>,
}

impl View for HardDriveSerial {
    type V = Report;

    closed spec fn view(&self) -> Report {
        Report {
            serial_numbers: self.serial_numbers.deep_view(),
            errors: self.errors.deep_view(),
            skips: self.skips.deep_view(),
            timings: self.timings@.map_values(|t: (usize, String, Duration)| (t.0, t.1@, t.2)),
        }
    }
}

/// The text that names `strategy` in a message.
fn strategy_phrase_str(strategy: Strategy) -> (s: &'static str)
    ensures
        s@ == strategy_phrase(strategy),
{
    match strategy {
        Strategy::Admin => "with admin rights",
        Strategy::Smart => "using SMART",
        Strategy::Zero => "with zero rights",
    }
}

/// The text that names `strategy` in a timing label.
fn strategy_tag_str(strategy: Strategy) -> (s: &'static str)
    ensures
        s@ == strategy_tag(strategy),
{
    match strategy {
        Strategy::Admin => "Trd#A",
        Strategy::Smart => "Trd#SM",
        Strategy::Zero => "Trd#Z",
    }
}

/// A message that starts with the drive's index.
fn drive_message(b_drive_num: u8, rest: &str) -> (s: String)
    ensures
        s@ == "Drive "@ + decimal_text(b_drive_num as nat) + rest@,
{
    let mut s = String::from_str("Drive ");
    push_decimal(&mut s, b_drive_num as u32);
    s.append(rest);
    s
}

/// The path of the physical drive with the index `b_drive_num`.
pub fn physical_drive_path(b_drive_num: u8) -> (s: String)
    ensures
        s@ == drive_path(b_drive_num),
{
    let mut s = String::from_str("\\\\.\\PhysicalDrive");
    push_decimal(&mut s, b_drive_num as u32);
    s
}

impl HardDriveSerial {
    #[verifier::type_invariant]
    spec fn serials_are_valid(&self) -> bool {
        forall|i: int|
            0 <= i < self.serial_numbers@.len() ==> is_valid_serial(
                (#[trigger] self.serial_numbers@[i])@,
            )
    }

    /// A resolution that has recorded nothing.
    pub fn new() -> (r: Self)
        ensures
            r@.serial_numbers.len() == 0,
            r@.errors.len() == 0,
            r@.skips.len() == 0,
            r@.timings.len() == 0,
    {
        HardDriveSerial {
            serial_numbers: Vec::new(),
            errors: Vec::new(),
            skips: Vec::new(),
            timings: Vec::new(),
        }
    }

    /// Whether `serial` is a valid serial number: not empty, and made of
    /// letters, numbers, underscores and hyphens only.
    pub fn is_valid_serial_number(&self, serial: &str) -> (r: bool)
        ensures
            r == is_valid_serial(serial@),
    {
        if serial.is_empty() {
            return false;
        }
        let mut ok = true;
        for c in it: serial.chars()
            invariant
                it.seq() == serial@,
                ok == (forall|i: int|
                    0 <= i < it.index() ==> is_serial_char(#[trigger] serial@[i])),
        {
            if !serial_char(c) {
                ok = false;
            }
        }
        ok
    }

    /// The serial numbers found so far. Each of them is valid.
    pub fn serial_numbers(&self) -> (r: &Vec<String>)
        ensures
            r.deep_view() == self@.serial_numbers,
            all_valid(self@),
    {
        proof {
            use_type_invariant(self);
            assert forall|i: int| 0 <= i < self@.serial_numbers.len() implies is_valid_serial(
                #[trigger] self@.serial_numbers[i],
            ) by {
                assert(self@.serial_numbers[i] == self.serial_numbers@[i]@);
            }
        }
        &self.serial_numbers
    }

    /// The errors recorded so far.
    pub fn errors(&self) -> (r: &Vec<String>)
        ensures
            r.deep_view() == self@.errors,
    {
        &self.errors
    }

    /// The skips recorded so far: the attempts that were not made, or not
    /// supported, and are no errors.
    pub fn skips(&self) -> (r: &Vec<String>)
        ensures
            r.deep_view() == self@.skips,
    {
        &self.skips
    }

    /// The timings recorded so far: for each attempt that ran, the drive's
    /// index, a label that names drive and strategy, and the time it took.
    pub fn timings(&self) -> (r: &Vec<(usize, String, Duration)>)
        ensures
            r@.map_values(|t: (usize, String, Duration)| (t.0, t.1@, t.2)) == self@.timings,
    {
        &self.timings
    }

    /// Adds a serial number that was found to be valid.
    fn push_serial(&mut self, serial: String)
        requires
            is_valid_serial(serial@),
        ensures
            final(self)@ == (Report {
                serial_numbers: old(self)@.serial_numbers.push(serial@),
                ..old(self)@
            }),
    {
        proof {
            use_type_invariant(&*self);
        }
        let mut list: Vec<String> = Vec::new();
        core::mem::swap(&mut self.serial_numbers, &mut list);
        list.push(serial);
        core::mem::swap(&mut self.serial_numbers, &mut list);
        assert(self@.serial_numbers =~= old(self)@.serial_numbers.push(serial@));
    }

    /// Adds an error message.
    fn push_error(&mut self, message: String)
        ensures
            final(self)@ == (Report { errors: old(self)@.errors.push(message@), ..old(self)@ }),
    {
        proof {
            use_type_invariant(&*self);
        }
        let mut list: Vec<String> = Vec::new();
        core::mem::swap(&mut self.errors, &mut list);
        list.push(message);
        core::mem::swap(&mut self.errors, &mut list);
        assert(self@.errors =~= old(self)@.errors.push(message@));
    }

    /// Adds a skip message.
    fn push_skip(&mut self, message: String)
        ensures
            final(self)@ == (Report { skips: old(self)@.skips.push(message@), ..old(self)@ }),
    {
        proof {
            use_type_invariant(&*self);
        }
        let mut list: Vec<String> = Vec::new();
        core::mem::swap(&mut self.skips, &mut list);
        list.push(message);
        core::mem::swap(&mut self.skips, &mut list);
        assert(self@.skips =~= old(self)@.skips.push(message@));
    }

    /// Records that the handle for `strategy` could not be opened.
    pub fn skip(&mut self, b_drive_num: u8, strategy: Strategy)
        ensures
            final(self)@ == skipped(old(self)@, b_drive_num, strategy),
    {
        let mut message = drive_message(b_drive_num, ": No access ");
        message.append(strategy_phrase_str(strategy));
        message.append(". Skipping.");
        self.push_skip(message);
    }

    /// Notes what `strategy` came to.
    pub fn note(&mut self, b_drive_num: u8, strategy: Strategy, finding: Finding)
        ensures
            final(self)@ == noted(old(self)@, b_drive_num, strategy, finding@),
    {
        match finding {
            Finding::Candidate { serial } => {
                if self.is_valid_serial_number(serial.as_str()) {
                    self.push_serial(serial);
                } else {
                    let mut message = drive_message(
                        b_drive_num,
                        ": Invalid serial number received ",
                    );
                    message.append(strategy_phrase_str(strategy));
                    self.push_error(message);
                }
            },
            Finding::NoData { error_code } => {
                match strategy {
                    Strategy::Admin => {
                        if error_code == ERROR_NOT_SUPPORTED {
                            let message = drive_message(
                                b_drive_num,
                                ": Admin rights method not supported. Skipping.",
                            );
                            self.push_skip(message);
                        } else {
                            let mut message = drive_message(
                                b_drive_num,
                                ": Failed to get serial number with admin rights, error code: ",
                            );
                            push_decimal(&mut message, error_code);
                            self.push_error(message);
                        }
                    },
                    _ => {},
                }
            },
        }
    }

    /// Notes the time that an attempt with `strategy` took.
    pub fn time(&mut self, b_drive_num: u8, strategy: Strategy, elapsed: Duration)
        ensures
            final(self)@ == timed(old(self)@, b_drive_num, strategy, elapsed),
    {
        proof {
            use_type_invariant(&*self);
        }
        let mut label = String::from_str("hd");
        push_decimal(&mut label, b_drive_num as u32);
        label.append(strategy_tag_str(strategy));
        let mut list: Vec<(usize, String, Duration)> = Vec::new();
        core::mem::swap(&mut self.timings, &mut list);
        list.push((b_drive_num as usize, label, elapsed));
        core::mem::swap(&mut self.timings, &mut list);
        assert(self@.timings =~= old(self)@.timings.push(
            (b_drive_num as usize, timing_label(b_drive_num, strategy), elapsed),
        ));
    }

    /// Records an attempt with `strategy`.
    fn record(&mut self, b_drive_num: u8, strategy: Strategy, attempt: Attempt)
        ensures
            final(self)@ == recorded(old(self)@, b_drive_num, strategy, attempt@),
    {
        match attempt {
            Attempt::Denied => {
                self.skip(b_drive_num, strategy);
            },
            Attempt::Ran { finding, elapsed } => {
                self.note(b_drive_num, strategy, finding);
                self.time(b_drive_num, strategy, elapsed);
            },
        }
    }

    /// Records an attempt to read the drive `b_drive_num` with the
    /// elevated-access strategy.
    ///
    /// A handle that could not be opened is a skip. A candidate is recorded as
    /// a serial number if it is valid, and as an error if it is not. Where
    /// the strategy found nothing, a driver that does not support it is a
    /// skip, and any other error code is an error. The time is recorded for
    /// every attempt whose handle was opened.
    pub fn read_physical_drive_in_nt_with_admin_rights(&mut self, b_drive_num: u8, attempt: Attempt)
        ensures
            final(self)@ == recorded(old(self)@, b_drive_num, Strategy::Admin, attempt@),
    {
        self.record(b_drive_num, Strategy::Admin, attempt);
    }

    /// Records an attempt to read the drive `b_drive_num` with the SMART
    /// strategy.
    ///
    /// A handle that could not be opened is a skip. A candidate is recorded as
    /// a serial number if it is valid, and as an error if it is not. Nothing
    /// found is no error. The time is recorded for every attempt whose handle
    /// was opened.
    pub fn read_physical_drive_in_nt_using_smart(&mut self, b_drive_num: u8, attempt: Attempt)
        ensures
            final(self)@ == recorded(old(self)@, b_drive_num, Strategy::Smart, attempt@),
    {
        self.record(b_drive_num, Strategy::Smart, attempt);
    }

    /// Records an attempt to read the drive `b_drive_num` with the zero-rights
    /// strategy.
    ///
    /// A handle that could not be opened is a skip. A candidate is recorded as
    /// a serial number if it is valid, and as an error if it is not. Nothing
    /// found is no error. The time is recorded for every attempt whose handle
    /// was opened.
    pub fn read_physical_drive_in_nt_with_zero_rights(&mut self, b_drive_num: u8, attempt: Attempt)
        ensures
            final(self)@ == recorded(old(self)@, b_drive_num, Strategy::Zero, attempt@),
    {
        self.record(b_drive_num, Strategy::Zero, attempt);
    }

    /// Appends the records of `other`.
    fn absorb(&mut self, other: HardDriveSerial)
        ensures
            final(self)@ == absorbed(old(self)@, other@),
    {
        proof {
            use_type_invariant(&*self);
            use_type_invariant(&other);
        }
        let HardDriveSerial { serial_numbers, errors, skips, timings } = other;
        let mut serial_numbers = serial_numbers;
        let mut errors = errors;
        let mut skips = skips;
        let mut timings = timings;
        let mut list: Vec<String> = Vec::new();
        core::mem::swap(&mut self.serial_numbers, &mut list);
        list.append(&mut serial_numbers);
        core::mem::swap(&mut self.serial_numbers, &mut list);
        let mut list: Vec<String> = Vec::new();
        core::mem::swap(&mut self.errors, &mut list);
        list.append(&mut errors);
        core::mem::swap(&mut self.errors, &mut list);
        let mut list: Vec<String> = Vec::new();
        core::mem::swap(&mut self.skips, &mut list);
        list.append(&mut skips);
        core::mem::swap(&mut self.skips, &mut list);
        let mut list: Vec<(usize, String, Duration)> = Vec::new();
        core::mem::swap(&mut self.timings, &mut list);
        list.append(&mut timings);
        core::mem::swap(&mut self.timings, &mut list);
        assert(self@.serial_numbers =~= absorbed(old(self)@, other@).serial_numbers);
        assert(self@.errors =~= absorbed(old(self)@, other@).errors);
        assert(self@.skips =~= absorbed(old(self)@, other@).skips);
        assert(self@.timings =~= absorbed(old(self)@, other@).timings);
    }

    /// Gathers what the readings of the drives recorded and returns the
    /// result of the resolution.
    ///
    /// `drives` holds, in the order in which they are to be reported, the
    /// records of the readings of the single drives. Their serial numbers,
    /// errors, skips and timings are appended to those of this resolution. The
    /// result is the serial numbers, if there is any, and else the messages:
    /// the errors, then the skips. A success is never empty.
    pub fn get_serial_numbers(&mut self, drives: Vec<HardDriveSerial>) -> (r: Result<
        Vec<String>,
        Vec<String>,
    >)
        ensures
            final(self)@ == merged(old(self)@, reports(drives@)),
            match r {
                Ok(found) => outcome(final(self)@) == Ok::<Seq<Seq<char>>, Seq<Seq<char>>>(
                    found.deep_view(),
                ),
                Err(messages) => outcome(final(self)@) == Err::<Seq<Seq<char>>, Seq<Seq<char>>>(
                    messages.deep_view(),
                ),
            },
            all_valid(final(self)@),
    {
        let ghost all = drives@;
        for drive in it: drives
            invariant
                it.seq() == all,
                self@ == merged(old(self)@, reports(all.take(it.index() as int))),
        {
            proof {
                let k = it.index() as int;
                assert(all.take(k + 1).drop_last() =~= all.take(k));
                assert(reports(all.take(k + 1)).drop_last() =~= reports(all.take(k)));
                assert(reports(all.take(k + 1)).last() == drive@);
            }
            self.absorb(drive);
        }
        assert(all.take(all.len() as int) =~= all);
        let found = clone_strings(self.serial_numbers());
        if found.len() > 0 {
            Ok(found)
        } else {
            let mut messages = clone_strings(&self.errors);
            let mut skips = clone_strings(&self.skips);
            messages.append(&mut skips);
            assert(messages.deep_view() =~= self@.errors + self@.skips);
            Err(messages)
        }
    }
}

/// A copy of a list of strings.
fn clone_strings(list: &Vec<String>) -> (out: Vec<String>)
    ensures
        out.deep_view() == list.deep_view(),
{
    let mut out: Vec<String> = Vec::new();
    let mut i: usize = 0;
    while i < list.len()
        invariant
            i <= list@.len(),
            out@.len() == i,
            forall|j: int| 0 <= j < i ==> out@[j]@ == list@[j]@,
        decreases list@.len() - i,
    {
        out.push(list[i].clone());
        i = i + 1;
    }
    assert(out.deep_view() =~= list.deep_view());
    out
}

} // verus!
