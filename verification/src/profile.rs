use vstd::prelude::*;
use vstd::string::StringExecFns;

verus! {

/// The message kinds the decoder resolves global message numbers against.
/// Numbers outside this table are kept as `Unknown` with their number.
#[derive(Debug, Clone, Copy, PartialEq, Eq, Structural)]
pub enum MesgNum {
    /// Global message number 0.
    FileId,
    /// Global message number 2.
    DeviceSettings,
    /// Global message number 3.
    UserProfile,
    /// Global message number 12.
    Sport,
    /// Global message number 15.
    Goal,
    /// Global message number 18.
    Session,
    /// Global message number 19.
    Lap,
    /// Global message number 20.
    Record,
    /// Global message number 21.
    Event,
    /// Global message number 23.
    DeviceInfo,
    /// Global message number 26.
    Workout,
    /// Global message number 27.
    WorkoutStep,
    /// Global message number 30.
    WeightScale,
    /// Global message number 34.
    Activity,
    /// Global message number 35.
    Software,
    /// Global message number 49.
    FileCreator,
    /// Global message number 55.
    Monitoring,
    /// Global message number 206: declares a developer field's type and names.
    FieldDescription,
    /// Global message number 207: declares a developer data index.
    DeveloperDataId,
    /// Any global message number outside the table, kept verbatim.
    Unknown(u16),
}

/// The message kind a global message number resolves to.
pub open spec fn mesg_num_of(n: u16) -> MesgNum {
    if n == 0 {
        MesgNum::FileId
    } else if n == 2 {
        MesgNum::DeviceSettings
    } else if n == 3 {
        MesgNum::UserProfile
    } else if n == 12 {
        MesgNum::Sport
    } else if n == 15 {
        MesgNum::Goal
    } else if n == 18 {
        MesgNum::Session
    } else if n == 19 {
        MesgNum::Lap
    } else if n == 20 {
        MesgNum::Record
    } else if n == 21 {
        MesgNum::Event
    } else if n == 23 {
        MesgNum::DeviceInfo
    } else if n == 26 {
        MesgNum::Workout
    } else if n == 27 {
        MesgNum::WorkoutStep
    } else if n == 30 {
        MesgNum::WeightScale
    } else if n == 34 {
        MesgNum::Activity
    } else if n == 35 {
        MesgNum::Software
    } else if n == 49 {
        MesgNum::FileCreator
    } else if n == 55 {
        MesgNum::Monitoring
    } else if n == 206 {
        MesgNum::FieldDescription
    } else if n == 207 {
        MesgNum::DeveloperDataId
    } else {
        MesgNum::Unknown(n)
    }
}

/// The global message number of a message kind.
pub open spec fn mesg_num_value(m: MesgNum) -> u16 {
    match m {
        MesgNum::FileId => 0,
        MesgNum::DeviceSettings => 2,
        MesgNum::UserProfile => 3,
        MesgNum::Sport => 12,
        MesgNum::Goal => 15,
        MesgNum::Session => 18,
        MesgNum::Lap => 19,
        MesgNum::Record => 20,
        MesgNum::Event => 21,
        MesgNum::DeviceInfo => 23,
        MesgNum::Workout => 26,
        MesgNum::WorkoutStep => 27,
        MesgNum::WeightScale => 30,
        MesgNum::Activity => 34,
        MesgNum::Software => 35,
        MesgNum::FileCreator => 49,
        MesgNum::Monitoring => 55,
        MesgNum::FieldDescription => 206,
        MesgNum::DeveloperDataId => 207,
        MesgNum::Unknown(n) => n,
    }
}

/// Resolving a number and reading the number back returns the starting number,
/// whatever the number was.
pub proof fn lemma_mesg_num_roundtrip(n: u16)
    ensures
        mesg_num_value(mesg_num_of(n)) == n,
{
}

/// Reading a kind's number and resolving it returns the starting kind, as long
/// as the kind is canonical: an `Unknown` never carries a number the table holds.
pub proof fn lemma_mesg_num_canonical(m: MesgNum)
    requires
        forall|n: u16| m == MesgNum::Unknown(n) ==> mesg_num_of(n) == MesgNum::Unknown(n),
    ensures
        mesg_num_of(mesg_num_value(m)) == m,
{
}

/// The decimal digits of `n`, most significant first.
pub open spec fn dec_chars(n: nat) -> Seq<char>
    decreases n,
{
    if n < 10 {
        seq![digit_char(n)]
    } else {
        dec_chars(n / 10).push(digit_char(n % 10))
    }
}

/// The character for one decimal digit.
pub open spec fn digit_char(d: nat) -> char {
    if d == 0 {
        '0'
    } else if d == 1 {
        '1'
    } else if d == 2 {
        '2'
    } else if d == 3 {
        '3'
    } else if d == 4 {
        '4'
    } else if d == 5 {
        '5'
    } else if d == 6 {
        '6'
    } else if d == 7 {
        '7'
    } else if d == 8 {
        '8'
    } else {
        '9'
    }
}

/// Relies on std's decimal formatter for unsigned integers: it prints exactly
/// the base-10 digits of its argument, most significant first, with no sign
/// and no leading zeros.
#[verifier::external_body]
fn u16_decimal(n: u16) -> (r: String)
    ensures
        r@ == dec_chars(n as nat),
{
    format!("{}", n)
}

/// The profile name of a message kind; kinds outside the table are named
/// `unknown_` followed by their number.
pub open spec fn mesg_name_seq(m: MesgNum) -> Seq<char> {
    match m {
        MesgNum::FileId => "file_id"@,
        MesgNum::DeviceSettings => "device_settings"@,
        MesgNum::UserProfile => "user_profile"@,
        MesgNum::Sport => "sport"@,
        MesgNum::Goal => "goal"@,
        MesgNum::Session => "session"@,
        MesgNum::Lap => "lap"@,
        MesgNum::Record => "record"@,
        MesgNum::Event => "event"@,
        MesgNum::DeviceInfo => "device_info"@,
        MesgNum::Workout => "workout"@,
        MesgNum::WorkoutStep => "workout_step"@,
        MesgNum::WeightScale => "weight_scale"@,
        MesgNum::Activity => "activity"@,
        MesgNum::Software => "software"@,
        MesgNum::FileCreator => "file_creator"@,
        MesgNum::Monitoring => "monitoring"@,
        MesgNum::FieldDescription => "field_description"@,
        MesgNum::DeveloperDataId => "developer_data_id"@,
        MesgNum::Unknown(n) => "unknown_"@ + dec_chars(n as nat),
    }
}

impl MesgNum {
    /// Resolve a global message number against the profile table.
    pub fn from_u16(n: u16) -> (r: MesgNum)
        ensures
            r == mesg_num_of(n),
    {
        match n {
            0 => MesgNum::FileId,
            2 => MesgNum::DeviceSettings,
            3 => MesgNum::UserProfile,
            12 => MesgNum::Sport,
            15 => MesgNum::Goal,
            18 => MesgNum::Session,
            19 => MesgNum::Lap,
            20 => MesgNum::Record,
            21 => MesgNum::Event,
            23 => MesgNum::DeviceInfo,
            26 => MesgNum::Workout,
            27 => MesgNum::WorkoutStep,
            30 => MesgNum::WeightScale,
            34 => MesgNum::Activity,
            35 => MesgNum::Software,
            49 => MesgNum::FileCreator,
            55 => MesgNum::Monitoring,
            206 => MesgNum::FieldDescription,
            207 => MesgNum::DeveloperDataId,
            _ => MesgNum::Unknown(n),
        }
    }

    /// The global message number this kind stands for.
    pub fn as_u16(&self) -> (r: u16)
        ensures
            r == mesg_num_value(*self),
    {
        match self {
            MesgNum::FileId => 0,
            MesgNum::DeviceSettings => 2,
            MesgNum::UserProfile => 3,
            MesgNum::Sport => 12,
            MesgNum::Goal => 15,
            MesgNum::Session => 18,
            MesgNum::Lap => 19,
            MesgNum::Record => 20,
            MesgNum::Event => 21,
            MesgNum::DeviceInfo => 23,
            MesgNum::Workout => 26,
            MesgNum::WorkoutStep => 27,
            MesgNum::WeightScale => 30,
            MesgNum::Activity => 34,
            MesgNum::Software => 35,
            MesgNum::FileCreator => 49,
            MesgNum::Monitoring => 55,
            MesgNum::FieldDescription => 206,
            MesgNum::DeveloperDataId => 207,
            MesgNum::Unknown(n) => *n,
        }
    }

    /// The profile name of this message kind.
    pub fn name(&self) -> (r: String)
        ensures
            r@ == mesg_name_seq(*self),
    {
        match self {
            MesgNum::FileId => String::from_str("file_id"),
            MesgNum::DeviceSettings => String::from_str("device_settings"),
            MesgNum::UserProfile => String::from_str("user_profile"),
            MesgNum::Sport => String::from_str("sport"),
            MesgNum::Goal => String::from_str("goal"),
            MesgNum::Session => String::from_str("session"),
            MesgNum::Lap => String::from_str("lap"),
            MesgNum::Record => String::from_str("record"),
            MesgNum::Event => String::from_str("event"),
            MesgNum::DeviceInfo => String::from_str("device_info"),
            MesgNum::Workout => String::from_str("workout"),
            MesgNum::WorkoutStep => String::from_str("workout_step"),
            MesgNum::WeightScale => String::from_str("weight_scale"),
            MesgNum::Activity => String::from_str("activity"),
            MesgNum::Software => String::from_str("software"),
            MesgNum::FileCreator => String::from_str("file_creator"),
            MesgNum::Monitoring => String::from_str("monitoring"),
            MesgNum::FieldDescription => String::from_str("field_description"),
            MesgNum::DeveloperDataId => String::from_str("developer_data_id"),
            MesgNum::Unknown(n) => {
                let mut s = String::from_str("unknown_");
                let digits = u16_decimal(*n);
                s.append(digits.as_str());
                s
            },
        }
    }
}

/// What the profile knows of one field of one message: its name, its units,
/// and whether its values are FIT `date_time` seconds.
pub struct FieldInfo {
    /// The field's profile name, or `unknown_` and its number.
    pub name: String,
    /// The field's units, empty when the profile gives none.
    pub units: String,
    /// Whether the field's values are seconds since the FIT epoch.
    pub is_date_time: bool,
}

/// Whether the profile declares this field of this message a `date_time`.
/// Field number 253 is the absolute timestamp in every message that has it;
/// the table shipped here declares no other `date_time` field, so messages
/// whose profile elsewhere gives one (a creation time, for instance) keep
/// those readings as plain unsigned values.
pub open spec fn field_is_date_time(global: u16, field: u8) -> bool {
    field == 253
}

/// The profile name of a field.
pub open spec fn field_name_seq(global: u16, field: u8) -> Seq<char> {
    if field == 253 {
        "timestamp"@
    } else if global == 206 && field == 0 {
        "developer_data_index"@
    } else if global == 206 && field == 1 {
        "field_definition_number"@
    } else if global == 206 && field == 2 {
        "fit_base_type_id"@
    } else if global == 206 && field == 3 {
        "field_name"@
    } else if global == 206 && field == 8 {
        "units"@
    } else if global == 207 && field == 3 {
        "developer_data_index"@
    } else {
        "unknown_"@ + dec_chars(field as nat)
    }
}

/// The profile units of a field; empty when the profile gives none.
pub open spec fn field_units_seq(global: u16, field: u8) -> Seq<char> {
    if field == 253 {
        "s"@
    } else {
        ""@
    }
}

/// Relies on std's decimal formatter for unsigned integers, as `u16_decimal`
/// does, for the `unknown_` names of fields.
#[verifier::external_body]
fn u8_decimal(n: u8) -> (r: String)
    ensures
        r@ == dec_chars(n as nat),
{
    format!("{}", n)
}

/// Resolve one field of one message against the profile table.
pub fn field_info(global: u16, field: u8) -> (r: FieldInfo)
    ensures
        r.name@ == field_name_seq(global, field),
        r.units@ == field_units_seq(global, field),
        r.is_date_time == field_is_date_time(global, field),
{
    if field == 253 {
        FieldInfo {
            name: String::from_str("timestamp"),
            units: String::from_str("s"),
            is_date_time: true,
        }
    } else {
        let name: String = if global == 206 && field == 0 {
            String::from_str("developer_data_index")
        } else if global == 206 && field == 1 {
            String::from_str("field_definition_number")
        } else if global == 206 && field == 2 {
            String::from_str("fit_base_type_id")
        } else if global == 206 && field == 3 {
            String::from_str("field_name")
        } else if global == 206 && field == 8 {
            String::from_str("units")
        } else if global == 207 && field == 3 {
            String::from_str("developer_data_index")
        } else {
            let mut s = String::from_str("unknown_");
            let digits = u8_decimal(field);
            s.append(digits.as_str());
            s
        };
        FieldInfo { name, units: String::from_str(""), is_date_time: false }
    }
}

} // verus!
