//! Roles that the owner gives to sources of OBS.
//!
//! OBS knows roles only for its own slots. A plain audio capture added to a scene makes a fine
//! microphone, yet has no role. Here the owner assigns roles themselves, and the order is strict:
//! the owner's choice, else the role that OBS gave, else nothing. Nothing is guessed from names:
//! guessing once let the emergency key mute the game instead of the microphone.
use vstd::prelude::*;
use crate::json;
use crate::json::{Fields, Json};
use crate::record;
use crate::record::Record;
use crate::text;

verus! {

/// The sources that the owner assigned.
#[derive(Debug, Clone, PartialEq)]
pub struct SourceRoles {
    /// The main microphone: the mute key, the silence alert and the readiness check go by it.
    pub microphone: Option<String>,
    /// The camera: the readiness check sees to it that it is visible.
    pub camera: Option<String>,
}

/// What was assigned.
#[verifier::ext_equal]
pub struct RolesV {
    pub microphone: Option<Seq<char>>,
    pub camera: Option<Seq<char>>,
}

impl View for SourceRoles {
    type V = RolesV;

    open spec fn view(&self) -> RolesV {
        RolesV { microphone: text::opt_view(self.microphone), camera: text::opt_view(self.camera) }
    }
}

impl Default for SourceRoles {
    fn default() -> (r: SourceRoles)
        ensures
            r@ == (RolesV { microphone: None, camera: None }),
    {
        SourceRoles { microphone: None, camera: None }
    }
}

/// Where the name of the microphone came from.
#[derive(Debug, Clone, Copy, PartialEq, Eq, Structural)]
pub enum RoleOrigin {
    /// The owner assigned it in the panel.
    Assigned,
    /// It was taken from the settings of OBS.
    ObsSpecial,
    /// It is assigned nowhere.
    Missing,
}

/// A name without the white space around it; a blank one is none.
pub open spec fn normal(value: Option<Seq<char>>) -> Option<Seq<char>> {
    match value {
        Some(v) => if text::trimmed(v).len() > 0 {
            Some(text::trimmed(v))
        } else {
            None
        },
        None => None,
    }
}

fn normalize(value: Option<String>) -> (r: Option<String>)
    ensures
        text::opt_view(r) == normal(text::opt_view(value)),
{
    match value {
        Some(v) => {
            let t = text::trim(v.as_str());
            if t.as_str().is_empty() {
                None
            } else {
                Some(t)
            }
        },
        None => None,
    }
}

/// The characters of an optional text that may not have been understood.
pub open spec fn part_view(part: Result<Option<String>, ()>) -> Result<Option<Seq<char>>, ()> {
    match part {
        Ok(o) => Ok(text::opt_view(o)),
        Err(_) => Err(()),
    }
}

/// Two optional texts as roles. If either is not understood, there is no assignment at all.
pub open spec fn both_roles(
    microphone: Result<Option<Seq<char>>, ()>,
    camera: Result<Option<Seq<char>>, ()>,
) -> RolesV {
    match (microphone, camera) {
        (Ok(m), Ok(c)) => RolesV { microphone: m, camera: c },
        _ => RolesV { microphone: None, camera: None },
    }
}

/// The roles that a record describes: fields with their names, or the microphone and the camera in
/// this order. Anything that is not understood counts as no assignment at all: a damaged file must
/// not keep the program from starting.
pub open spec fn roles_of(r: Option<record::RecordV>) -> RolesV {
    match r {
        Some(record::RecordV::Named(fields)) => both_roles(
            record::optional_text(record::asked(fields, "microphone"@)),
            record::optional_text(record::asked(fields, "camera"@)),
        ),
        Some(record::RecordV::Listed(items)) => if items.len() <= 2 {
            both_roles(
                record::optional_text(record::asked_at(items, 0)),
                record::optional_text(record::asked_at(items, 1)),
            )
        } else {
            RolesV { microphone: None, camera: None }
        },
        None => RolesV { microphone: None, camera: None },
    }
}

/// The roles, field by field in the order in which they are written down.
pub open spec fn roles_fields(roles: RolesV) -> Seq<(Seq<char>, json::JsonV)> {
    seq![
        ("microphone"@, opt_value(roles.microphone)),
        ("camera"@, opt_value(roles.camera)),
    ]
}

/// The record that describes the roles.
pub open spec fn stored_fields(roles: RolesV) -> Seq<record::FieldV> {
    roles_fields(roles).map_values(|f: (Seq<char>, json::JsonV)| (f.0, Some(f.1)))
}

/// An optional text as a value.
pub open spec fn opt_value(o: Option<Seq<char>>) -> json::JsonV {
    match o {
        Some(s) => json::JsonV::Str(s),
        None => json::JsonV::Null,
    }
}

fn opt_json(o: &Option<String>) -> (r: Json)
    ensures
        r@ == opt_value(text::opt_view(*o)),
{
    match o {
        Some(s) => Json::Str(s.clone()),
        None => Json::Null,
    }
}

impl SourceRoles {
    /// The roles that a record describes.
    pub fn from_record(r: &Option<Record>) -> (roles: SourceRoles)
        ensures
            roles@ == roles_of(record::record_view(*r)),
    {
        match r {
            Some(Record::Named(fields)) => SourceRoles::from_parts(
                record::read_optional_text(&record::ask(fields, "microphone")),
                record::read_optional_text(&record::ask(fields, "camera")),
            ),
            Some(Record::Listed(items)) => {
                if items.len() > 2 {
                    return SourceRoles::default();
                }
                SourceRoles::from_parts(
                    record::read_optional_text(&record::ask_at(items, 0)),
                    record::read_optional_text(&record::ask_at(items, 1)),
                )
            },
            None => SourceRoles::default(),
        }
    }

    fn from_parts(microphone: Result<Option<String>, ()>, camera: Result<Option<String>, ()>) -> (r:
        SourceRoles)
        ensures
            r@ == both_roles(part_view(microphone), part_view(camera)),
    {
        match (microphone, camera) {
            (Ok(microphone), Ok(camera)) => SourceRoles { microphone, camera },
            _ => SourceRoles::default(),
        }
    }

    fn fields(&self) -> (r: Fields)
        ensures
            r.pairs@.len() == 2,
            r.pairs@[0].0@ == "microphone"@ && r.pairs@[0].1@ == opt_value(self@.microphone),
            r.pairs@[1].0@ == "camera"@ && r.pairs@[1].1@ == opt_value(self@.camera),
    {
        Fields::new().put("microphone", opt_json(&self.microphone)).put(
            "camera",
            opt_json(&self.camera),
        )
    }

    /// The roles that a text describes; none if it is not understood.
    pub fn from_json(raw: &str) -> (r: SourceRoles)
        ensures
            r@ == roles_of(record::record_in(raw@)),
    {
        SourceRoles::from_record(&record::read_record(raw))
    }

    /// The text that describes the roles. Read again, it gives the same roles.
    pub fn to_json(&self) -> (r: String)
        ensures
            r@ == json::printed_fields_pretty(roles_fields(self@)),
            roles_of(record::record_in(r@)) == self@,
    {
        let fields = self.fields();
        proof {
            law_roles_survive(self@);
            assert(json::pairs_view(fields.pairs@) =~= roles_fields(self@));
            assert(json::record_fields(fields.pairs@) =~= stored_fields(self@));
        }
        fields.to_pretty_text()
    }

    /// The roles with blank names taken for no assignment.
    pub fn normalized(self) -> (r: SourceRoles)
        ensures
            r@ == (RolesV {
                microphone: normal(self@.microphone),
                camera: normal(self@.camera),
            }),
    {
        SourceRoles { microphone: normalize(self.microphone), camera: normalize(self.camera) }
    }

    /// The name of the microphone: the owner's choice, else the one that OBS gave the role.
    pub fn microphone_name<'a>(&'a self, obs_special: Option<&'a str>) -> (r: Option<&'a str>)
        ensures
            text::opt_str(r) == (match self@.microphone {
                Some(name) => Some(name),
                None => text::opt_str(obs_special),
            }),
    {
        match &self.microphone {
            Some(name) => Some(name.as_str()),
            None => obs_special,
        }
    }

    /// Where the name of the microphone came from.
    pub fn microphone_origin(&self, obs_special: Option<&str>) -> (r: RoleOrigin)
        ensures
            r == (if self@.microphone is Some {
                RoleOrigin::Assigned
            } else if obs_special is Some {
                RoleOrigin::ObsSpecial
            } else {
                RoleOrigin::Missing
            }),
    {
        match (&self.microphone, obs_special) {
            (Some(_), _) => RoleOrigin::Assigned,
            (None, Some(_)) => RoleOrigin::ObsSpecial,
            (None, None) => RoleOrigin::Missing,
        }
    }
}

// ---------------------------------------------------------------------------------------------
// Laws
// ---------------------------------------------------------------------------------------------
/// What is written down as a record is read back.
pub proof fn law_roles_survive(roles: RolesV)
    ensures
        roles_of(Some(record::RecordV::Named(stored_fields(roles)))) == roles,
{
    reveal_strlit("microphone");
    reveal_strlit("camera");
    assert("microphone"@.len() != "camera"@.len());
    let fields = stored_fields(roles);
    assert(fields.len() == 2);
    assert(fields.drop_last().drop_last().len() == 0);
    reveal_with_fuel(record::asked, 3);
}

/// Normalising twice is normalising once.
pub proof fn law_normalizing_is_idempotent(value: Option<Seq<char>>)
    ensures
        normal(normal(value)) == normal(value),
{
    if value is Some {
        lemma_trimmed_twice(value->0);
    }
}

proof fn lemma_front_fixed(s: Seq<char>)
    ensures
        text::skip_front(s, text::Class::Space).len() == 0 || !text::is_space(
            text::skip_front(s, text::Class::Space)[0],
        ),
    decreases s.len(),
{
    if s.len() > 0 && text::is_space(s[0]) {
        lemma_front_fixed(s.drop_first());
    }
}

proof fn lemma_back_fixed(s: Seq<char>)
    ensures
        text::skip_back(s, text::Class::Space).len() == 0 || !text::is_space(
            text::skip_back(s, text::Class::Space).last(),
        ),
        text::skip_back(s, text::Class::Space).len() > 0 ==> s.len() > 0 && text::skip_back(
            s,
            text::Class::Space,
        )[0] == s[0],
    decreases s.len(),
{
    if s.len() > 0 && text::is_space(s.last()) {
        lemma_back_fixed(s.drop_last());
    }
}

proof fn lemma_trimmed_twice(s: Seq<char>)
    ensures
        text::trimmed(text::trimmed(s)) == text::trimmed(s),
{
    let front = text::skip_front(s, text::Class::Space);
    lemma_front_fixed(s);
    lemma_back_fixed(front);
    let t = text::trimmed(s);
    if t.len() > 0 {
        assert(t[0] == front[0]);
        assert(text::skip_front(t, text::Class::Space) == t);
    }
}


/// A name is taken without the white space around it and otherwise as it is; a name of nothing but
/// white space is no assignment.
pub proof fn law_a_name_is_kept(value: Seq<char>)
    ensures
        normal(None) is None,
        normal(Some(value)) is None <==> (forall|i: int|
            0 <= i < value.len() ==> text::is_space(#[trigger] value[i])),
        value.len() > 0 && !text::is_space(value[0]) && !text::is_space(value.last()) ==> normal(
            Some(value),
        ) == Some(value),
        normal(Some(value)) matches Some(name) ==> exists|a: int, b: int|
            0 <= a < b <= value.len() && name == #[trigger] value.subrange(a, b),
{
    let ends = text::law_trimming_takes_white_space_only(value);
    assert(text::trimmed(value) =~= value.subrange(ends.0, ends.1));
    if forall|i: int| 0 <= i < value.len() ==> text::is_space(#[trigger] value[i]) {
        if text::trimmed(value).len() > 0 {
            assert(text::is_space(value[ends.0]));
        }
    }
    if value.len() > 0 && !text::is_space(value[0]) && !text::is_space(value.last()) {
        assert(ends.0 == 0);
        assert(ends.1 == value.len());
        assert(value.subrange(0, value.len() as int) =~= value);
    }
}

/// A record gives each role under its own name: the microphone under `microphone`, the camera under
/// `camera`, and in a list in this order. If one of them is not understood, neither is assigned.
pub proof fn law_each_role_has_its_field(
    fields: Seq<record::FieldV>,
    items: Seq<Option<json::JsonV>>,
)
    ensures
        ({
            let m = record::optional_text(record::asked(fields, "microphone"@));
            let c = record::optional_text(record::asked(fields, "camera"@));
            let r = roles_of(Some(record::RecordV::Named(fields)));
            &&& m is Ok && c is Ok ==> m == Ok::<_, ()>(r.microphone) && c == Ok::<_, ()>(r.camera)
            &&& m is Err || c is Err ==> r.microphone is None && r.camera is None
        }),
        ({
            let m = record::optional_text(record::asked_at(items, 0));
            let c = record::optional_text(record::asked_at(items, 1));
            let r = roles_of(Some(record::RecordV::Listed(items)));
            &&& items.len() <= 2 && m is Ok && c is Ok ==> m == Ok::<_, ()>(r.microphone) && c
                == Ok::<_, ()>(r.camera)
            &&& items.len() > 2 || m is Err || c is Err ==> r.microphone is None && r.camera is None
        }),
        roles_of(None).microphone is None && roles_of(None).camera is None,
{
}

} // verus!
