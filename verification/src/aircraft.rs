//! The aircraft dialog's form: the text of its entries, how it is checked,
//! and the aircraft it is saved as.
use vstd::prelude::*;
use crate::text::{decimal_i32, law_number_text_reads_back, number_text, parse_number, signed_text};

verus! {

/// An aircraft of the hangar and its performance figures.
pub struct Aircraft {
    pub name: String,
    pub cruise_speed: i32,
    pub cruise_altitude: i32,
    pub climb_speed: i32,
    pub climb_rate: i32,
    pub sink_speed: i32,
    pub sink_rate: i32,
    pub is_default: bool,
}

impl Aircraft {
    pub fn new(
        name: String,
        cruise_speed: i32,
        cruise_altitude: i32,
        climb_speed: i32,
        climb_rate: i32,
        sink_speed: i32,
        sink_rate: i32,
        is_default: bool,
    ) -> (a: Aircraft)
        ensures
            a.name@ == name@,
            a.cruise_speed == cruise_speed,
            a.cruise_altitude == cruise_altitude,
            a.climb_speed == climb_speed,
            a.climb_rate == climb_rate,
            a.sink_speed == sink_speed,
            a.sink_rate == sink_rate,
            a.is_default == is_default,
    {
        Aircraft {
            name,
            cruise_speed,
            cruise_altitude,
            climb_speed,
            climb_rate,
            sink_speed,
            sink_rate,
            is_default,
        }
    }
}

/// An entry of the aircraft dialog.
#[derive(Clone, Copy, PartialEq, Eq, Structural, Debug)]
pub enum AircraftField {
    Name,
    CruiseSpeed,
    CruiseAltitude,
    ClimbSpeed,
    ClimbRate,
    SinkSpeed,
    SinkRate,
}

/// The name the dialog gives an entry in its messages.
pub open spec fn field_label(f: AircraftField) -> Seq<char> {
    match f {
        AircraftField::Name => "Name"@,
        AircraftField::CruiseSpeed => "Cruise Speed"@,
        AircraftField::CruiseAltitude => "Cruise Altitude"@,
        AircraftField::ClimbSpeed => "Climb Speed"@,
        AircraftField::ClimbRate => "Climb Rate"@,
        AircraftField::SinkSpeed => "Sink Speed"@,
        AircraftField::SinkRate => "Sink Rate"@,
    }
}

impl AircraftField {
    pub fn label(&self) -> (r: &'static str)
        ensures
            r@ == field_label(*self),
    {
        match self {
            AircraftField::Name => "Name",
            AircraftField::CruiseSpeed => "Cruise Speed",
            AircraftField::CruiseAltitude => "Cruise Altitude",
            AircraftField::ClimbSpeed => "Climb Speed",
            AircraftField::ClimbRate => "Climb Rate",
            AircraftField::SinkSpeed => "Sink Speed",
            AircraftField::SinkRate => "Sink Rate",
        }
    }
}

/// Why the form was refused.
#[derive(Clone, Copy, PartialEq, Eq, Structural, Debug)]
pub enum FormError {
    /// The entry is empty.
    Required(AircraftField),
    /// The entry is not a whole number.
    NotNumeric(AircraftField),
}

/// The message shown for a refusal.
pub open spec fn error_message(e: FormError) -> Seq<char> {
    match e {
        FormError::Required(f) => field_label(f) + " is required"@,
        FormError::NotNumeric(f) => field_label(f) + " should be numeric"@,
    }
}

impl FormError {
    pub fn message(&self) -> (r: String)
        ensures
            r@ == error_message(*self),
    {
        match self {
            FormError::Required(f) => String::from_str(f.label()).concat(" is required"),
            FormError::NotNumeric(f) => String::from_str(f.label()).concat(" should be numeric"),
        }
    }
}

/// The number an entry holds, or 0 where it holds none.
pub open spec fn number_of(text: Seq<char>) -> i32 {
    match decimal_i32(text) {
        Some(v) => v,
        None => 0,
    }
}

/// The number in an entry's text, or 0 where the text is not a number.
pub fn number_from(text: &str) -> (r: i32)
    ensures
        r == number_of(text@),
{
    match parse_number(text) {
        Some(v) => v,
        None => 0,
    }
}

/// Refuses an entry that is not a whole number.
pub fn validate_numeric(text: &str, field: AircraftField) -> (r: Result<(), FormError>)
    ensures
        r == if decimal_i32(text@).is_some() {
            Ok(())
        } else {
            Err(FormError::NotNumeric(field))
        },
{
    match parse_number(text) {
        Some(_) => Ok(()),
        None => Err(FormError::NotNumeric(field)),
    }
}

/// Refuses an empty entry.
pub fn validate_not_empty(text: &str, field: AircraftField) -> (r: Result<(), FormError>)
    ensures
        r == if text@.len() == 0 {
            Err(FormError::Required(field))
        } else {
            Ok(())
        },
{
    if text.is_empty() {
        Err(FormError::Required(field))
    } else {
        Ok(())
    }
}

/// The text of the aircraft dialog's entries, and whether the name may be
/// edited.
pub struct AircraftForm {
    pub name: String,
    pub cruise_speed: String,
    pub cruise_altitude: String,
    pub climb_speed: String,
    pub climb_rate: String,
    pub sink_speed: String,
    pub sink_rate: String,
    pub name_editable: bool,
}

/// The prompt the aircraft dialog shows when it is saved without a name.
pub open spec fn name_prompt() -> Seq<char> {
    "Please enter a name"@
}

/// The first refusal of the form, checking the name and then each figure in
/// the order of the dialog.
pub open spec fn form_check(f: &AircraftForm) -> Result<(), FormError> {
    if f.name@.len() == 0 {
        Err(FormError::Required(AircraftField::Name))
    } else if decimal_i32(f.cruise_speed@).is_none() {
        Err(FormError::NotNumeric(AircraftField::CruiseSpeed))
    } else if decimal_i32(f.cruise_altitude@).is_none() {
        Err(FormError::NotNumeric(AircraftField::CruiseAltitude))
    } else if decimal_i32(f.climb_speed@).is_none() {
        Err(FormError::NotNumeric(AircraftField::ClimbSpeed))
    } else if decimal_i32(f.climb_rate@).is_none() {
        Err(FormError::NotNumeric(AircraftField::ClimbRate))
    } else if decimal_i32(f.sink_speed@).is_none() {
        Err(FormError::NotNumeric(AircraftField::SinkSpeed))
    } else if decimal_i32(f.sink_rate@).is_none() {
        Err(FormError::NotNumeric(AircraftField::SinkRate))
    } else {
        Ok(())
    }
}

impl AircraftForm {
    /// A form with every entry empty and the name editable.
    pub fn new() -> (f: AircraftForm)
        ensures
            f.name@.len() == 0,
            f.cruise_speed@.len() == 0,
            f.cruise_altitude@.len() == 0,
            f.climb_speed@.len() == 0,
            f.climb_rate@.len() == 0,
            f.sink_speed@.len() == 0,
            f.sink_rate@.len() == 0,
            f.name_editable,
    {
        AircraftForm {
            name: String::new(),
            cruise_speed: String::new(),
            cruise_altitude: String::new(),
            climb_speed: String::new(),
            climb_rate: String::new(),
            sink_speed: String::new(),
            sink_rate: String::new(),
            name_editable: true,
        }
    }

    /// Fills the form for an aircraft. With no name the form is cleared for a
    /// new aircraft. With a name, `found` is the hangar's aircraft of that
    /// name: its name and figures are shown and the name is locked; where the
    /// hangar has none, the entries stay as they are and the name is unlocked.
    pub fn set_aircraft(&mut self, name: Option<&str>, found: Option<&Aircraft>)
        ensures
            name.is_none() ==> {
                &&& final(self).name@.len() == 0
                &&& final(self).cruise_speed@.len() == 0
                &&& final(self).cruise_altitude@.len() == 0
                &&& final(self).climb_speed@.len() == 0
                &&& final(self).climb_rate@.len() == 0
                &&& final(self).sink_speed@.len() == 0
                &&& final(self).sink_rate@.len() == 0
                &&& final(self).name_editable
            },
            name.is_some() && found.is_none() ==> {
                &&& final(self).name@ == old(self).name@
                &&& final(self).cruise_speed@ == old(self).cruise_speed@
                &&& final(self).cruise_altitude@ == old(self).cruise_altitude@
                &&& final(self).climb_speed@ == old(self).climb_speed@
                &&& final(self).climb_rate@ == old(self).climb_rate@
                &&& final(self).sink_speed@ == old(self).sink_speed@
                &&& final(self).sink_rate@ == old(self).sink_rate@
                &&& final(self).name_editable
            },
            name.is_some() && found.is_some() ==> {
                let a = found.unwrap();
                &&& final(self).name@ == a.name@
                &&& final(self).cruise_speed@ == signed_text(a.cruise_speed as int)
                &&& final(self).cruise_altitude@ == signed_text(a.cruise_altitude as int)
                &&& final(self).climb_speed@ == signed_text(a.climb_speed as int)
                &&& final(self).climb_rate@ == signed_text(a.climb_rate as int)
                &&& final(self).sink_speed@ == signed_text(a.sink_speed as int)
                &&& final(self).sink_rate@ == signed_text(a.sink_rate as int)
                &&& !final(self).name_editable
            },
    {
        match name {
            Some(_) => match found {
                Some(a) => {
                    self.name = a.name.clone();
                    self.cruise_speed = number_text(a.cruise_speed);
                    self.cruise_altitude = number_text(a.cruise_altitude);
                    self.climb_speed = number_text(a.climb_speed);
                    self.climb_rate = number_text(a.climb_rate);
                    self.sink_speed = number_text(a.sink_speed);
                    self.sink_rate = number_text(a.sink_rate);
                    self.name_editable = false;
                },
                None => {
                    self.name_editable = true;
                },
            },
            None => {
                self.name = String::new();
                self.cruise_speed = String::new();
                self.cruise_altitude = String::new();
                self.climb_speed = String::new();
                self.climb_rate = String::new();
                self.sink_speed = String::new();
                self.sink_rate = String::new();
                self.name_editable = true;
            },
        }
    }

    /// Checks the form as `form_check` describes.
    pub fn validate(&self) -> (r: Result<(), FormError>)
        ensures
            r == form_check(self),
    {
        validate_not_empty(self.name.as_str(), AircraftField::Name)?;
        validate_numeric(self.cruise_speed.as_str(), AircraftField::CruiseSpeed)?;
        validate_numeric(self.cruise_altitude.as_str(), AircraftField::CruiseAltitude)?;
        validate_numeric(self.climb_speed.as_str(), AircraftField::ClimbSpeed)?;
        validate_numeric(self.climb_rate.as_str(), AircraftField::ClimbRate)?;
        validate_numeric(self.sink_speed.as_str(), AircraftField::SinkSpeed)?;
        validate_numeric(self.sink_rate.as_str(), AircraftField::SinkRate)?;
        Ok(())
    }

    /// The aircraft the form saves. Without a name nothing is saved and the
    /// dialog asks for one with the prompt `name_prompt`; otherwise the
    /// aircraft has the name, each figure read with `number_from`, and is not
    /// the default.
    pub fn save_aircraft(&self) -> (r: Result<Aircraft, &'static str>)
        ensures
            r is Err <==> self.name@.len() == 0,
            r matches Err(m) ==> m@ == name_prompt(),
            r matches Ok(a) ==> {
                &&& a.name@ == self.name@
                &&& a.cruise_speed == number_of(self.cruise_speed@)
                &&& a.cruise_altitude == number_of(self.cruise_altitude@)
                &&& a.climb_speed == number_of(self.climb_speed@)
                &&& a.climb_rate == number_of(self.climb_rate@)
                &&& a.sink_speed == number_of(self.sink_speed@)
                &&& a.sink_rate == number_of(self.sink_rate@)
                &&& !a.is_default
            },
    {
        if self.name.as_str().is_empty() {
            proof {
                reveal_strlit("Please enter a name");
            }
            Err("Please enter a name")
        } else {
            Ok(
                Aircraft::new(
                    self.name.clone(),
                    number_from(self.cruise_speed.as_str()),
                    number_from(self.cruise_altitude.as_str()),
                    number_from(self.climb_speed.as_str()),
                    number_from(self.climb_rate.as_str()),
                    number_from(self.sink_speed.as_str()),
                    number_from(self.sink_rate.as_str()),
                    false,
                ),
            )
        }
    }
}

/// The index of the last entry that is set, if any.
pub open spec fn last_set(s: Seq<bool>) -> Option<u32>
    decreases s.len(),
{
    if s.len() == 0 {
        None
    } else if s.last() {
        Some((s.len() - 1) as u32)
    } else {
        last_set(s.drop_last())
    }
}

/// The aircraft the combo box starts on, given which aircraft of the hangar
/// (in order) is marked as the default: the last one marked, if any.
pub fn default_aircraft_index(is_default: &Vec<bool>) -> (r: Option<u32>)
    requires
        is_default@.len() <= u32::MAX,
    ensures
        r == last_set(is_default@),
{
    let mut selected: Option<u32> = None;
    let n = is_default.len();
    let mut i: usize = 0;
    while i < n
        invariant
            n == is_default@.len(),
            n <= u32::MAX,
            i <= n,
            selected == last_set(is_default@.take(i as int)),
        decreases n - i,
    {
        let ghost prefix = is_default@.take(i as int + 1);
        assert(prefix.drop_last() =~= is_default@.take(i as int));
        assert(prefix.last() == is_default@[i as int]);
        if is_default[i] {
            selected = Some(i as u32);
        }
        i = i + 1;
    }
    assert(is_default@.take(n as int) =~= is_default@);
    selected
}

/// Saving the form just filled with an aircraft gives back that aircraft's
/// name and figures: the form passes its checks where the name is not empty,
/// and every figure reads back as shown.
pub proof fn law_shown_aircraft_saves_back(form: &AircraftForm, a: &Aircraft)
    requires
        form.name@ == a.name@,
        form.cruise_speed@ == signed_text(a.cruise_speed as int),
        form.cruise_altitude@ == signed_text(a.cruise_altitude as int),
        form.climb_speed@ == signed_text(a.climb_speed as int),
        form.climb_rate@ == signed_text(a.climb_rate as int),
        form.sink_speed@ == signed_text(a.sink_speed as int),
        form.sink_rate@ == signed_text(a.sink_rate as int),
    ensures
        form_check(form) == if a.name@.len() == 0 {
            Err(FormError::Required(AircraftField::Name))
        } else {
            Ok(())
        },
        number_of(form.cruise_speed@) == a.cruise_speed,
        number_of(form.cruise_altitude@) == a.cruise_altitude,
        number_of(form.climb_speed@) == a.climb_speed,
        number_of(form.climb_rate@) == a.climb_rate,
        number_of(form.sink_speed@) == a.sink_speed,
        number_of(form.sink_rate@) == a.sink_rate,
{
    law_number_text_reads_back(a.cruise_speed);
    law_number_text_reads_back(a.cruise_altitude);
    law_number_text_reads_back(a.climb_speed);
    law_number_text_reads_back(a.climb_rate);
    law_number_text_reads_back(a.sink_speed);
    law_number_text_reads_back(a.sink_rate);
}

} // verus!
