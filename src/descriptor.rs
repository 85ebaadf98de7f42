use vstd::prelude::*;
use crate::bytes::{bytes_eq, copy_bytes};
use crate::error::EngineError;
use crate::unit::UnitDescriptor;

verus! {

/// The fields of a JSON object: each key, with its value where the value is a string.
pub type JsonFields = Seq<(Seq<u8>, Option<Seq<u8>>)>;

pub open spec fn fields_view(v: Seq<(Vec<u8>, Option<Vec<u8>>)>) -> JsonFields {
    v.map_values(
        |p: (Vec<u8>, Option<Vec<u8>>)|
            (
                p.0@,
                match p.1 {
                    Some(s) => Some(s@),
                    None => None,
                },
            ),
    )
}

/// What serde_json reads from a text as a JSON object with its string fields;
/// `None` where the text is not a JSON object.
pub uninterp spec fn json_object_fields(text: Seq<u8>) -> Option<JsonFields>;

/// Relies on serde_json::from_slice: reads the text as a JSON object (into a map from
/// key to value) and keeps, for each key, the value's text where the value is a string.
#[verifier::external_body]
fn parse_json_object(text: &Vec<u8>) -> (r: Option<Vec<(Vec<u8>, Option<Vec<u8>>)>>)
    ensures
        match r {
            Some(v) => json_object_fields(text@) == Some(fields_view(v@)),
            None => json_object_fields(text@) is None,
        },
{
    match serde_json::from_slice::<std::collections::BTreeMap<String, serde_json::Value>>(text.as_slice()) {
        Ok(m) => Some(
            m.into_iter().map(|(k, v)| (k.into_bytes(), match v {
                serde_json::Value::String(s) => Some(s.into_bytes()),
                _ => None,
            })).collect(),
        ),
        Err(_) => None,
    }
}

/// The text of the first field with this key, if that field's value is a string.
pub open spec fn text_field(fields: JsonFields, key: Seq<u8>, n: nat) -> Option<Seq<u8>>
    decreases n,
{
    if n == 0 || n > fields.len() {
        None
    } else if fields[fields.len() - n].0 == key {
        fields[fields.len() - n].1
    } else {
        text_field(fields, key, (n - 1) as nat)
    }
}

pub open spec fn lookup_text(fields: JsonFields, key: Seq<u8>) -> Option<Seq<u8>> {
    text_field(fields, key, fields.len())
}

/// The text value of a field of a parsed object.
pub fn field_text(fields: &Vec<(Vec<u8>, Option<Vec<u8>>)>, key: &Vec<u8>) -> (r: Option<Vec<u8>>)
    ensures
        match lookup_text(fields_view(fields@), key@) {
            Some(t) => r matches Some(v) && v@ == t,
            None => r is None,
        },
{
    let ghost fv = fields_view(fields@);
    let mut i: usize = 0;
    while i < fields.len()
        invariant
            fv == fields_view(fields@),
            i <= fields@.len(),
            lookup_text(fv, key@) == text_field(fv, key@, (fields@.len() - i) as nat),
        decreases fields@.len() - i,
    {
        assert(fv[i as int] == fields_view(fields@)[i as int]);
        if bytes_eq(&fields[i].0, key) {
            return match &fields[i].1 {
                Some(v) => Some(copy_bytes(v)),
                None => None,
            };
        }
        i += 1;
    }
    None
}

/// The six references of a unit descriptor.
#[derive(Clone, Copy, Debug, PartialEq, Eq, Structural)]
pub enum UnitField {
    Animation,
    Camera,
    Model,
    Projection,
    Shader,
    Texture,
}

pub open spec fn unit_field_key(f: UnitField) -> Seq<u8> {
    match f {
        UnitField::Animation => seq![97u8, 110u8, 105u8, 109u8, 97u8, 116u8, 105u8, 111u8, 110u8],
        UnitField::Camera => seq![99u8, 97u8, 109u8, 101u8, 114u8, 97u8],
        UnitField::Model => seq![109u8, 111u8, 100u8, 101u8, 108u8],
        UnitField::Projection => seq![112u8, 114u8, 111u8, 106u8, 101u8, 99u8, 116u8, 105u8, 111u8, 110u8],
        UnitField::Shader => seq![115u8, 104u8, 97u8, 100u8, 101u8, 114u8],
        UnitField::Texture => seq![116u8, 101u8, 120u8, 116u8, 117u8, 114u8, 101u8],
    }
}

/// The key of a descriptor field: `animation`, `camera`, `model`, `projection`, `shader`, `texture`.
pub fn unit_field_key_exec(f: UnitField) -> (r: Vec<u8>)
    ensures
        r@ == unit_field_key(f),
{
    let r: Vec<u8> = match f {
        UnitField::Animation => vec![97u8, 110u8, 105u8, 109u8, 97u8, 116u8, 105u8, 111u8, 110u8],
        UnitField::Camera => vec![99u8, 97u8, 109u8, 101u8, 114u8, 97u8],
        UnitField::Model => vec![109u8, 111u8, 100u8, 101u8, 108u8],
        UnitField::Projection => vec![112u8, 114u8, 111u8, 106u8, 101u8, 99u8, 116u8, 105u8, 111u8, 110u8],
        UnitField::Shader => vec![115u8, 104u8, 97u8, 100u8, 101u8, 114u8],
        UnitField::Texture => vec![116u8, 101u8, 120u8, 116u8, 117u8, 114u8, 101u8],
    };
    assert(r@ == unit_field_key(f));
    r
}

/// The first descriptor field, in the order animation, camera, model, projection,
/// shader, texture, that is missing or not a string.
pub open spec fn first_bad_field(fields: JsonFields) -> Option<UnitField> {
    if lookup_text(fields, unit_field_key(UnitField::Animation)) is None {
        Some(UnitField::Animation)
    } else if lookup_text(fields, unit_field_key(UnitField::Camera)) is None {
        Some(UnitField::Camera)
    } else if lookup_text(fields, unit_field_key(UnitField::Model)) is None {
        Some(UnitField::Model)
    } else if lookup_text(fields, unit_field_key(UnitField::Projection)) is None {
        Some(UnitField::Projection)
    } else if lookup_text(fields, unit_field_key(UnitField::Shader)) is None {
        Some(UnitField::Shader)
    } else if lookup_text(fields, unit_field_key(UnitField::Texture)) is None {
        Some(UnitField::Texture)
    } else {
        None
    }
}

/// The descriptor holds the unit's name and the six text fields.
pub open spec fn describes(d: &UnitDescriptor, name: Seq<u8>, fields: JsonFields) -> bool {
    &&& d.name@ == name
    &&& Some(d.animation@) == lookup_text(fields, unit_field_key(UnitField::Animation))
    &&& Some(d.camera@) == lookup_text(fields, unit_field_key(UnitField::Camera))
    &&& Some(d.model@) == lookup_text(fields, unit_field_key(UnitField::Model))
    &&& Some(d.projection@) == lookup_text(fields, unit_field_key(UnitField::Projection))
    &&& Some(d.shader@) == lookup_text(fields, unit_field_key(UnitField::Shader))
    &&& Some(d.texture@) == lookup_text(fields, unit_field_key(UnitField::Texture))
}

fn required_text(fields: &Vec<(Vec<u8>, Option<Vec<u8>>)>, f: UnitField) -> (r: Result<Vec<u8>, EngineError>)
    ensures
        match lookup_text(fields_view(fields@), unit_field_key(f)) {
            Some(t) => r matches Ok(v) && v@ == t,
            None => r matches Err(EngineError::MalformedDescriptor { field }) && field@ == unit_field_key(f),
        },
{
    let key = unit_field_key_exec(f);
    match field_text(fields, &key) {
        Some(v) => Ok(v),
        None => Err(EngineError::MalformedDescriptor { field: key }),
    }
}

/// A unit descriptor from the fields of its JSON object. A missing or non-string
/// reference is `MalformedDescriptor` naming the first such field.
pub fn unit_descriptor_from_fields(name: &Vec<u8>, fields: &Vec<(Vec<u8>, Option<Vec<u8>>)>) -> (r: Result<
    UnitDescriptor,
    EngineError,
>)
    ensures
        match first_bad_field(fields_view(fields@)) {
            None => r matches Ok(d) && describes(&d, name@, fields_view(fields@)),
            Some(f) => r matches Err(EngineError::MalformedDescriptor { field }) && field@ == unit_field_key(f),
        },
{
    let animation = required_text(fields, UnitField::Animation)?;
    let camera = required_text(fields, UnitField::Camera)?;
    let model = required_text(fields, UnitField::Model)?;
    let projection = required_text(fields, UnitField::Projection)?;
    let shader = required_text(fields, UnitField::Shader)?;
    let texture = required_text(fields, UnitField::Texture)?;
    Ok(UnitDescriptor { name: copy_bytes(name), animation, camera, model, projection, shader, texture })
}

/// Reads a unit descriptor file. Text that is not a JSON object is `MalformedDescriptor`
/// with an empty field name.
pub fn parse_unit_descriptor(name: &Vec<u8>, text: &Vec<u8>) -> (r: Result<UnitDescriptor, EngineError>)
    ensures
        match json_object_fields(text@) {
            None => r matches Err(EngineError::MalformedDescriptor { field }) && field@.len() == 0,
            Some(fields) => match first_bad_field(fields) {
                None => r matches Ok(d) && describes(&d, name@, fields),
                Some(f) => r matches Err(EngineError::MalformedDescriptor { field }) && field@ == unit_field_key(f),
            },
        },
{
    match parse_json_object(text) {
        Some(fields) => unit_descriptor_from_fields(name, &fields),
        None => Err(EngineError::MalformedDescriptor { field: Vec::new() }),
    }
}

/// The two kinds of projection a descriptor can ask for.
#[derive(Clone, Copy, Debug, PartialEq, Eq, Structural)]
pub enum ProjectionKind {
    Orthogonal,
    Perspective,
}

pub open spec fn type_key() -> Seq<u8> {
    seq![116u8, 121u8, 112u8, 101u8]
}

pub open spec fn orthogonal_name() -> Seq<u8> {
    seq![111u8, 114u8, 116u8, 104u8, 111u8, 103u8, 111u8, 110u8, 97u8, 108u8]
}

pub open spec fn perspective_name() -> Seq<u8> {
    seq![112u8, 101u8, 114u8, 115u8, 112u8, 101u8, 99u8, 116u8, 105u8, 118u8, 101u8]
}

/// The projection kind named by a descriptor's `type` field: `orthogonal` or
/// `perspective`; another name is `UnknownProjectionType`, a missing one `MalformedDescriptor`.
pub fn projection_kind_from_fields(fields: &Vec<(Vec<u8>, Option<Vec<u8>>)>) -> (r: Result<ProjectionKind, EngineError>)
    ensures
        match lookup_text(fields_view(fields@), type_key()) {
            None => r matches Err(EngineError::MalformedDescriptor { field }) && field@ == type_key(),
            Some(t) => if t == orthogonal_name() {
                r == Ok::<ProjectionKind, EngineError>(ProjectionKind::Orthogonal)
            } else if t == perspective_name() {
                r == Ok::<ProjectionKind, EngineError>(ProjectionKind::Perspective)
            } else {
                r matches Err(EngineError::UnknownProjectionType)
            },
        },
{
    let key: Vec<u8> = vec![116u8, 121u8, 112u8, 101u8];
    assert(key@ == type_key());
    let t = match field_text(fields, &key) {
        Some(t) => t,
        None => {
            return Err(EngineError::MalformedDescriptor { field: key });
        },
    };
    let ortho: Vec<u8> = vec![111u8, 114u8, 116u8, 104u8, 111u8, 103u8, 111u8, 110u8, 97u8, 108u8];
    assert(ortho@ == orthogonal_name());
    let persp: Vec<u8> = vec![112u8, 101u8, 114u8, 115u8, 112u8, 101u8, 99u8, 116u8, 105u8, 118u8, 101u8];
    assert(persp@ == perspective_name());
    if bytes_eq(&t, &ortho) {
        Ok(ProjectionKind::Orthogonal)
    } else if bytes_eq(&t, &persp) {
        Ok(ProjectionKind::Perspective)
    } else {
        Err(EngineError::UnknownProjectionType)
    }
}

/// Reads the kind of a projection descriptor file.
pub fn parse_projection_kind(text: &Vec<u8>) -> (r: Result<ProjectionKind, EngineError>)
    ensures
        match json_object_fields(text@) {
            None => r matches Err(EngineError::MalformedDescriptor { field }) && field@.len() == 0,
            Some(fields) => match lookup_text(fields, type_key()) {
                None => r matches Err(EngineError::MalformedDescriptor { field }) && field@ == type_key(),
                Some(t) => if t == orthogonal_name() {
                    r == Ok::<ProjectionKind, EngineError>(ProjectionKind::Orthogonal)
                } else if t == perspective_name() {
                    r == Ok::<ProjectionKind, EngineError>(ProjectionKind::Perspective)
                } else {
                    r matches Err(EngineError::UnknownProjectionType)
                },
            },
        },
{
    match parse_json_object(text) {
        Some(fields) => projection_kind_from_fields(&fields),
        None => Err(EngineError::MalformedDescriptor { field: Vec::new() }),
    }
}

} // verus!
