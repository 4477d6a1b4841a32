use vstd::prelude::*;

use crate::checksum::{crc16_checksum, crc16_ibm_sdlc};
use crate::date_time::DateTime;
use vstd::std_specs::convert::FromSpecImpl;

verus! {

/// Largest number of alarms the table holds.
pub const ALARMS_MAX_LENGTH: u8 = 16;

/// Number of alarm slots stored in the table (equal to `ALARMS_MAX_LENGTH`).
pub const TABLE_SLOTS: usize = 16;

/// A weekly alarm: a weekday (0 = Monday … 6 = Sunday), an hour and a minute.
#[derive(Clone, Copy, PartialEq, Eq, Structural, Debug)]
pub struct AlarmTime {
    pub weekday: u8,
    pub hour: u8,
    pub minute: u8,
}

impl AlarmTime {
    /// A weekday in 0..7, an hour in 0..24 and a minute in 0..60.
    pub open spec fn spec_is_valid(self) -> bool {
        &&& self.weekday < 7
        &&& self.hour < 24
        &&& self.minute < 60
    }

    /// The alarm whose three fields are zero.
    pub open spec fn spec_zeroed() -> AlarmTime {
        AlarmTime { weekday: 0, hour: 0, minute: 0 }
    }

    /// The three bytes by which the alarm enters the table's checksum.
    pub open spec fn spec_bytes(self) -> Seq<u8> {
        seq![self.weekday, self.hour, self.minute]
    }

    pub fn is_valid(&self) -> (valid: bool)
        ensures
            valid == self.spec_is_valid(),
    {
        self.weekday < 7 && self.minute < 60 && self.hour < 24
    }

    pub fn zeroed() -> (zero: Self)
        ensures
            zero == Self::spec_zeroed(),
    {
        AlarmTime { weekday: 0, hour: 0, minute: 0 }
    }
}

impl Default for AlarmTime {
    fn default() -> (zero: Self)
        ensures
            zero == Self::spec_zeroed(),
    {
        AlarmTime::zeroed()
    }
}

impl AlarmTime {
    /// The alarm that goes off at the weekday, hour and minute of `dt`.
    pub open spec fn spec_from_date_time(dt: DateTime) -> AlarmTime {
        AlarmTime {
            weekday: dt.view().weekday() as u8,
            hour: dt.view().hour as u8,
            minute: dt.view().minute as u8,
        }
    }
}

impl From<DateTime> for AlarmTime {
    fn from(time: DateTime) -> (alarm: Self) {
        AlarmTime { weekday: time.weekday(), hour: time.hour() as u8, minute: time.minute() as u8 }
    }
}

impl FromSpecImpl<DateTime> for AlarmTime {
    open spec fn obeys_from_spec() -> bool {
        true
    }

    open spec fn from_spec(time: DateTime) -> AlarmTime {
        AlarmTime::spec_from_date_time(time)
    }
}

impl<'a> From<&'a DateTime> for AlarmTime {
    fn from(time: &'a DateTime) -> (alarm: Self) {
        AlarmTime { weekday: time.weekday(), hour: time.hour() as u8, minute: time.minute() as u8 }
    }
}

impl<'a> FromSpecImpl<&'a DateTime> for AlarmTime {
    open spec fn obeys_from_spec() -> bool {
        true
    }

    open spec fn from_spec(time: &'a DateTime) -> AlarmTime {
        AlarmTime::spec_from_date_time(*time)
    }
}

/// An alarm taken from a valid clock reading is a valid alarm, with the
/// reading's weekday, hour and minute.
pub proof fn lemma_alarm_from_date_time_is_valid(dt: DateTime)
    requires
        dt.view().is_valid(),
    ensures
        AlarmTime::spec_from_date_time(dt).spec_is_valid(),
        AlarmTime::spec_from_date_time(dt).weekday == dt.view().weekday(),
        AlarmTime::spec_from_date_time(dt).hour == dt.view().hour,
        AlarmTime::spec_from_date_time(dt).minute == dt.view().minute,
{
}

/// The bytes of a sequence of alarms, three per alarm, in order.
pub open spec fn alarms_bytes(alarms: Seq<AlarmTime>) -> Seq<u8>
    decreases alarms.len(),
{
    if alarms.len() == 0 {
        Seq::empty()
    } else {
        alarms_bytes(alarms.drop_last()) + alarms.last().spec_bytes()
    }
}

/// The abstract state of an `AlarmTable`: all its slots, the number of
/// slots in use and the stored checksum.
pub struct AlarmTableView {
    pub slots: Seq<AlarmTime>,
    pub length: nat,
    pub checksum: u16,
}

impl AlarmTableView {
    /// The alarms in use: the first `length` slots.
    pub open spec fn alarms(self) -> Seq<AlarmTime> {
        self.slots.take(self.length as int)
    }

    /// The number of slots in use never exceeds the capacity.
    pub open spec fn wf(self) -> bool {
        &&& self.slots.len() == TABLE_SLOTS
        &&& self.length <= ALARMS_MAX_LENGTH
    }

    /// The length byte followed by the bytes of every slot, used or not.
    pub open spec fn checksum_input(self) -> Seq<u8> {
        seq![self.length as u8] + alarms_bytes(self.slots)
    }

    /// The checksum that the table's contents call for.
    pub open spec fn expected_checksum(self) -> u16 {
        crc16_ibm_sdlc(self.checksum_input())
    }

    /// The length is in range and every alarm in use is valid.
    pub open spec fn is_valid(self) -> bool {
        &&& self.length <= ALARMS_MAX_LENGTH
        &&& forall|i: int| 0 <= i < self.length ==> (#[trigger] self.slots[i]).spec_is_valid()
    }

    /// Valid, and the stored checksum is the one the contents call for.
    pub open spec fn is_consistent(self) -> bool {
        &&& self.is_valid()
        &&& self.checksum == self.expected_checksum()
    }

    /// The table after `push_alarm(alarm)`: `None` when it is full.
    pub open spec fn push(self, alarm: AlarmTime) -> Option<AlarmTableView> {
        if self.length == ALARMS_MAX_LENGTH {
            None
        } else {
            let slots = self.slots.update(self.length as int, alarm);
            let pushed = AlarmTableView { slots, length: self.length + 1, checksum: 0 };
            Some(AlarmTableView { checksum: pushed.expected_checksum(), ..pushed })
        }
    }

    /// The table after `clear()`: no alarm in use, checksum recomputed.
    pub open spec fn clear(self) -> AlarmTableView {
        let cleared = AlarmTableView { length: 0, ..self };
        AlarmTableView { checksum: cleared.expected_checksum(), ..cleared }
    }
}

/// Pushing a valid alarm onto a valid table that is not full succeeds and
/// leaves a consistent table (whatever checksum it held before) whose alarms are the old ones followed by the new
/// one: the pushed alarm is contained, and so is every alarm contained before.
pub proof fn lemma_push_valid_keeps_consistency(t: AlarmTableView, alarm: AlarmTime)
    requires
        t.wf(),
        t.is_valid(),
        alarm.spec_is_valid(),
        t.length < ALARMS_MAX_LENGTH,
    ensures
        t.push(alarm) is Some,
        t.push(alarm)->0.wf(),
        t.push(alarm)->0.is_consistent(),
        t.push(alarm)->0.alarms() == t.alarms().push(alarm),
        t.push(alarm)->0.alarms().contains(alarm),
        forall|a: AlarmTime| t.alarms().contains(a) ==> t.push(alarm)->0.alarms().contains(a),
{
    let p = t.push(alarm)->0;
    assert(p.alarms() =~= t.alarms().push(alarm));
    assert(p.alarms()[t.length as int] == alarm);
    assert forall|a: AlarmTime| t.alarms().contains(a) implies p.alarms().contains(a) by {
        let k = choose|k: int| 0 <= k < t.alarms().len() && t.alarms()[k] == a;
        assert(p.alarms()[k] == a);
    }
    assert forall|i: int| 0 <= i < p.length implies (#[trigger] p.slots[i]).spec_is_valid() by {
        if i < t.length {
            assert(p.slots[i] == t.slots[i]);
        }
    }
}

/// Pushing an invalid alarm onto a table that is not full succeeds, and the
/// resulting table is not consistent.
pub proof fn lemma_push_invalid_breaks_consistency(t: AlarmTableView, alarm: AlarmTime)
    requires
        t.wf(),
        !alarm.spec_is_valid(),
        t.length < ALARMS_MAX_LENGTH,
    ensures
        t.push(alarm) is Some,
        !t.push(alarm)->0.is_consistent(),
{
    let p = t.push(alarm)->0;
    assert(p.slots[t.length as int] == alarm);
}

/// A full table refuses every push.
pub proof fn lemma_push_on_full_table_fails(t: AlarmTableView, alarm: AlarmTime)
    requires
        t.length == ALARMS_MAX_LENGTH,
    ensures
        t.push(alarm) is None,
{
}

/// Clearing any table leaves a consistent table with no alarm in use, whose
/// slots are untouched.
pub proof fn lemma_clear_empties(t: AlarmTableView)
    requires
        t.wf(),
    ensures
        t.clear().wf(),
        t.clear().is_consistent(),
        t.clear().alarms() == Seq::<AlarmTime>::empty(),
        t.clear().slots == t.slots,
        forall|a: AlarmTime| !t.clear().alarms().contains(a),
{
    assert(t.clear().alarms() =~= Seq::<AlarmTime>::empty());
}

/// The bytes of a sequence of alarms are three per alarm: its weekday, hour
/// and minute, at positions `3 * i`, `3 * i + 1` and `3 * i + 2`.
pub proof fn lemma_alarms_bytes_layout(alarms: Seq<AlarmTime>)
    ensures
        alarms_bytes(alarms).len() == 3 * alarms.len(),
        forall|i: int|
            #![trigger alarms[i]]
            0 <= i < alarms.len() ==> {
                &&& alarms_bytes(alarms)[3 * i] == alarms[i].weekday
                &&& alarms_bytes(alarms)[3 * i + 1] == alarms[i].hour
                &&& alarms_bytes(alarms)[3 * i + 2] == alarms[i].minute
            },
    decreases alarms.len(),
{
    if alarms.len() > 0 {
        let rest = alarms.drop_last();
        lemma_alarms_bytes_layout(rest);
        let b = alarms_bytes(alarms);
        assert(b == alarms_bytes(rest) + alarms.last().spec_bytes());
        assert forall|i: int| #![trigger alarms[i]] 0 <= i < alarms.len() implies {
            &&& b[3 * i] == alarms[i].weekday
            &&& b[3 * i + 1] == alarms[i].hour
            &&& b[3 * i + 2] == alarms[i].minute
        } by {
            let left = alarms_bytes(rest);
            let right = alarms.last().spec_bytes();
            assert(left.len() == 3 * rest.len());
            if i < rest.len() {
                assert(rest[i] == alarms[i]);
                assert(left[3 * i] == rest[i].weekday);
                assert(b[3 * i] == left[3 * i]);
                assert(b[3 * i + 1] == left[3 * i + 1]);
                assert(b[3 * i + 2] == left[3 * i + 2]);
            } else {
                assert(i == rest.len());
                assert(b[3 * i] == right[0]);
                assert(b[3 * i + 1] == right[1]);
                assert(b[3 * i + 2] == right[2]);
            }
        }
    }
}

/// The checksum covers the length byte and then the weekday, hour and minute
/// of every one of the `TABLE_SLOTS` slots, in slot order, whether in use or not.
pub proof fn lemma_checksum_input_layout(t: AlarmTableView)
    requires
        t.slots.len() == TABLE_SLOTS,
    ensures
        t.checksum_input().len() == 1 + 3 * TABLE_SLOTS,
        t.checksum_input()[0] == t.length as u8,
        forall|i: int|
            #![trigger t.slots[i]]
            0 <= i < TABLE_SLOTS ==> {
                &&& t.checksum_input()[1 + 3 * i] == t.slots[i].weekday
                &&& t.checksum_input()[2 + 3 * i] == t.slots[i].hour
                &&& t.checksum_input()[3 + 3 * i] == t.slots[i].minute
            },
{
    lemma_alarms_bytes_layout(t.slots);
    let c = t.checksum_input();
    assert forall|i: int| #![trigger t.slots[i]] 0 <= i < TABLE_SLOTS implies {
        &&& c[1 + 3 * i] == t.slots[i].weekday
        &&& c[2 + 3 * i] == t.slots[i].hour
        &&& c[3 + 3 * i] == t.slots[i].minute
    } by {
        assert(alarms_bytes(t.slots)[3 * i] == t.slots[i].weekday);
    }
}

/// Tables of the same length whose slots differ in any field of any slot have
/// different checksum inputs: changing a slot of a consistent table leaves a
/// table that is consistent only if the CRCs of the two inputs collide.
pub proof fn lemma_checksum_input_tells_slots_apart(t: AlarmTableView, u: AlarmTableView)
    requires
        t.wf(),
        u.wf(),
        t.length == u.length,
        t.slots != u.slots,
    ensures
        t.checksum_input() != u.checksum_input(),
        t.is_consistent() && u.checksum == t.checksum && u.is_consistent() ==> crc16_ibm_sdlc(
            t.checksum_input(),
        ) == crc16_ibm_sdlc(u.checksum_input()) && t.checksum_input() != u.checksum_input(),
{
    lemma_checksum_input_layout(t);
    lemma_checksum_input_layout(u);
    if t.checksum_input() == u.checksum_input() {
        assert(t.slots =~= u.slots) by {
            assert forall|i: int| 0 <= i < TABLE_SLOTS implies t.slots[i] == u.slots[i] by {
                assert(t.checksum_input()[1 + 3 * i] == u.checksum_input()[1 + 3 * i]);
                assert(t.checksum_input()[2 + 3 * i] == u.checksum_input()[2 + 3 * i]);
                assert(t.checksum_input()[3 + 3 * i] == u.checksum_input()[3 + 3 * i]);
            }
        }
    }
}

/// The alarms in use are exactly the first `length` slots, whatever they
/// hold (valid or not).
pub proof fn lemma_alarms_are_first_slots(t: AlarmTableView)
    requires
        t.wf(),
    ensures
        t.alarms().len() == t.length,
        forall|i: int| 0 <= i < t.length ==> #[trigger] t.alarms()[i] == t.slots[i],
        forall|a: AlarmTime|
            t.alarms().contains(a) <==> exists|i: int| 0 <= i < t.length && t.slots[i] == a,
{
    assert forall|a: AlarmTime|
        t.alarms().contains(a) <==> exists|i: int| 0 <= i < t.length && t.slots[i] == a by {
        if exists|i: int| 0 <= i < t.length && t.slots[i] == a {
            let i = choose|i: int| 0 <= i < t.length && t.slots[i] == a;
            assert(t.alarms()[i] == a);
        }
    }
}

/// Pushing onto any table that is not full (valid or not) succeeds, writes
/// the alarm into the first free slot, leaves every other slot as it was and
/// adds one to the length: the alarms in use are the old ones followed by
/// the new one, and the checksum is recomputed from the new contents.
pub proof fn lemma_push_appends(t: AlarmTableView, alarm: AlarmTime)
    requires
        t.wf(),
        t.length < ALARMS_MAX_LENGTH,
    ensures
        t.push(alarm) is Some,
        t.push(alarm)->0.wf(),
        t.push(alarm)->0.length == t.length + 1,
        t.push(alarm)->0.slots[t.length as int] == alarm,
        forall|i: int|
            0 <= i < TABLE_SLOTS && i != t.length ==> #[trigger] t.push(alarm)->0.slots[i]
                == t.slots[i],
        t.push(alarm)->0.alarms() == t.alarms().push(alarm),
        t.push(alarm)->0.checksum == t.push(alarm)->0.expected_checksum(),
{
    assert(t.push(alarm)->0.alarms() =~= t.alarms().push(alarm));
}

/// A table of up to `ALARMS_MAX_LENGTH` alarms, protected by a CRC-16 of
/// its length and of all its slots, so that a copy kept across a deep sleep
/// can be told apart from garbage.
pub struct AlarmTable {
    pub table: [AlarmTime; TABLE_SLOTS],
    table_length: u8,
    checksum: u16,
}

impl AlarmTable {
    /// The number of slots in use.
    pub closed spec fn spec_length(&self) -> nat {
        self.table_length as nat
    }

    /// The stored checksum.
    pub closed spec fn spec_checksum(&self) -> u16 {
        self.checksum
    }

    /// The contents of all slots.
    pub closed spec fn spec_slots(&self) -> Seq<AlarmTime> {
        self.table@
    }

    pub open spec fn view(&self) -> AlarmTableView {
        AlarmTableView {
            slots: self.spec_slots(),
            length: self.spec_length(),
            checksum: self.spec_checksum(),
        }
    }

    /// Every table has exactly `TABLE_SLOTS` slots.
    pub proof fn lemma_slot_count(&self)
        ensures
            self.view().slots.len() == TABLE_SLOTS,
    {
    }

    /// An empty table: every slot zeroed, length 0 and checksum 0.
    /// (Its checksum is not recomputed: call `clear` to make it consistent.)
    pub fn new() -> (t: Self)
        ensures
            t.view().slots == Seq::new(TABLE_SLOTS as nat, |i: int| AlarmTime::spec_zeroed()),
            t.view().length == 0,
            t.view().checksum == 0,
            t.view().wf(),
    {
        let zero = AlarmTime::zeroed();
        let t = AlarmTable { table: [zero; TABLE_SLOTS], table_length: 0, checksum: 0 };
        proof {
            broadcast use vstd::array::group_array_axioms;
            assert(t.table@ =~= Seq::new(TABLE_SLOTS as nat, |i: int| AlarmTime::spec_zeroed()));
        }
        t
    }

    /// The table is valid and its stored checksum matches its contents.
    pub fn is_consistent(&self) -> (consistent: bool)
        ensures
            consistent == self.view().is_consistent(),
            consistent ==> self.view().wf(),
    {
        self.is_valid() && self.is_checksum_consistent()
    }

    fn is_valid(&self) -> (valid: bool)
        ensures
            valid == self.view().is_valid(),
    {
        if self.table_length > ALARMS_MAX_LENGTH {
            return false;
        }
        let len = self.table_length as usize;
        let mut i: usize = 0;
        while i < len
            invariant
                len == self.view().length,
                len <= TABLE_SLOTS,
                i <= len,
                self.table@.len() == TABLE_SLOTS,
                forall|j: int| 0 <= j < i ==> (#[trigger] self.table@[j]).spec_is_valid(),
            decreases len - i,
        {
            if !self.table[i].is_valid() {
                assert(!self.view().slots[i as int].spec_is_valid());
                return false;
            }
            i = i + 1;
        }
        true
    }

    /// The bytes that the checksum covers: the length, then the weekday,
    /// hour and minute of every slot.
    pub fn checksum_input(&self) -> (bytes: Vec<u8>)
        ensures
            bytes@ == self.view().checksum_input(),
            bytes@.len() == 1 + 3 * TABLE_SLOTS,
            bytes@[0] == self.view().length as u8,
            forall|i: int|
                #![trigger self.view().slots[i]]
                0 <= i < TABLE_SLOTS ==> {
                    &&& bytes@[1 + 3 * i] == self.view().slots[i].weekday
                    &&& bytes@[2 + 3 * i] == self.view().slots[i].hour
                    &&& bytes@[3 + 3 * i] == self.view().slots[i].minute
                },
    {
        let mut bytes: Vec<u8> = Vec::new();
        bytes.push(self.table_length);
        let mut i: usize = 0;
        while i < TABLE_SLOTS
            invariant
                i <= TABLE_SLOTS,
                self.table@.len() == TABLE_SLOTS,
                bytes@ == seq![self.table_length] + alarms_bytes(self.table@.take(i as int)),
            decreases TABLE_SLOTS - i,
        {
            let alarm = self.table[i];
            bytes.push(alarm.weekday);
            bytes.push(alarm.hour);
            bytes.push(alarm.minute);
            proof {
                let s = self.table@.take(i + 1);
                assert(s.drop_last() =~= self.table@.take(i as int));
                assert(s.last() == alarm);
            }
            i = i + 1;
        }
        proof {
            assert(self.table@.take(TABLE_SLOTS as int) =~= self.table@);
            lemma_checksum_input_layout(self.view());
        }
        bytes
    }

    fn calculate_checksum(&self) -> (sum: u16)
        ensures
            sum == self.view().expected_checksum(),
    {
        let bytes = self.checksum_input();
        crc16_checksum(bytes.as_slice())
    }

    fn is_checksum_consistent(&self) -> (matches: bool)
        ensures
            matches == (self.view().checksum == self.view().expected_checksum()),
    {
        self.checksum == self.calculate_checksum()
    }

    fn recalculate_checksum(&mut self)
        ensures
            final(self).view() == (AlarmTableView {
                checksum: old(self).view().expected_checksum(),
                ..old(self).view()
            }),
    {
        self.checksum = self.calculate_checksum();
    }

    /// Empties the table and stores the checksum of the result; the slots
    /// keep their contents.
    pub fn clear(&mut self)
        ensures
            final(self).view() == old(self).view().clear(),
            final(self).view().is_consistent(),
            final(self).view().wf(),
    {
        self.table_length = 0;
        self.recalculate_checksum();
    }

    /// Appends `alarm` and recomputes the checksum; `None`, with the table
    /// unchanged, when the table is full.
    pub fn push_alarm(&mut self, alarm: AlarmTime) -> (pushed: Option<()>)
        requires
            old(self).view().wf(),
        ensures
            pushed is Some <==> old(self).view().length < ALARMS_MAX_LENGTH,
            pushed is None ==> final(self).view() == old(self).view(),
            pushed is Some ==> final(self).view() == old(self).view().push(alarm)->0,
            pushed is Some ==> final(self).view().length == old(self).view().length + 1,
            pushed is Some ==> final(self).view().slots[old(self).view().length as int] == alarm,
            pushed is Some ==> forall|i: int|
                0 <= i < TABLE_SLOTS && i != old(self).view().length
                    ==> #[trigger] final(self).view().slots[i] == old(self).view().slots[i],
            pushed is Some ==> final(self).view().alarms() == old(self).view().alarms().push(alarm),
            final(self).view().wf(),
    {
        if self.table_length == ALARMS_MAX_LENGTH {
            return None;
        }
        self.table[self.table_length as usize] = alarm;
        self.table_length = self.table_length + 1;
        self.recalculate_checksum();
        Some(())
    }

    /// Whether `alarm` is one of the alarms in use.
    pub fn contains(&self, alarm: &AlarmTime) -> (found: bool)
        requires
            self.view().wf(),
        ensures
            found == self.view().alarms().contains(*alarm),
            found == exists|i: int| 0 <= i < self.view().length && self.view().slots[i] == *alarm,
    {
        let len = self.table_length as usize;
        let mut i: usize = 0;
        while i < len
            invariant
                len == self.view().length,
                len <= TABLE_SLOTS,
                i <= len,
                self.table@.len() == TABLE_SLOTS,
                forall|j: int| 0 <= j < i ==> self.table@[j] != *alarm,
            decreases len - i,
        {
            if self.table[i] == *alarm {
                proof {
                    assert(self.view().alarms()[i as int] == *alarm);
                }
                return true;
            }
            i = i + 1;
        }
        proof {
            if self.view().alarms().contains(*alarm) {
                let k = choose|k: int| 0 <= k < self.view().alarms().len() && self.view().alarms()[k] == *alarm;
                assert(self.table@[k] == *alarm);
            }
        }
        false
    }
    /// Whether the weekday, hour and minute of `time` are those of an alarm
    /// in use.
    pub fn contains_date_time(&self, time: &DateTime) -> (found: bool)
        requires
            self.view().wf(),
        ensures
            found == self.view().alarms().contains(AlarmTime::spec_from_date_time(*time)),
            found == exists|i: int|
                0 <= i < self.view().length && self.view().slots[i] == AlarmTime::spec_from_date_time(
                    *time,
                ),
    {
        let alarm: AlarmTime = AlarmTime::from(time);
        self.contains(&alarm)
    }
}

} // verus!
