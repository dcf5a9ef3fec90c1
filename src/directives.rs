use vstd::prelude::*;

verus! {

/// One item inside an `itf(...)` attribute.
#[derive(Debug, Clone)]
pub enum Meta {
    /// `name = "value"`.
    NameValue(String, String),
    /// Any other form, which carries no setting.
    Other,
}

/// An attribute attached to a declaration.
#[derive(Debug, Clone)]
pub enum Attribute {
    /// `itf(...)`, with its items.
    Itf(Vec<Meta>),
    /// An attribute of another tool.
    Other,
}

/// The settings of one declaration: the tag field of an enumeration, and the
/// name under which a field or variant is written.
#[derive(Debug, Clone)]
pub struct Directives {
    pub tag: String,
    pub rename: Option<String>,
}

impl View for Directives {
    type V = (Seq<char>, Option<Seq<char>>);

    open spec fn view(&self) -> (Seq<char>, Option<Seq<char>>) {
        (
            self.tag@,
            match self.rename {
                Some(n) => Some(n@),
                None => None,
            },
        )
    }
}

/// The settings before any attribute is read.
pub open spec fn default_directives() -> (Seq<char>, Option<Seq<char>>) {
    ("tag"@, None)
}

/// One item applied to the settings: a later setting of a name replaces an earlier one.
pub open spec fn apply_meta(d: (Seq<char>, Option<Seq<char>>), m: Meta) -> (
    Seq<char>,
    Option<Seq<char>>,
) {
    match m {
        Meta::NameValue(k, v) => if k@ == "rename"@ {
            (d.0, Some(v@))
        } else if k@ == "tag"@ {
            (v@, d.1)
        } else {
            d
        },
        Meta::Other => d,
    }
}

pub open spec fn apply_metas(d: (Seq<char>, Option<Seq<char>>), ms: Seq<Meta>) -> (
    Seq<char>,
    Option<Seq<char>>,
)
    decreases ms.len(),
{
    if ms.len() == 0 {
        d
    } else {
        apply_metas(apply_meta(d, ms[0]), ms.drop_first())
    }
}

/// The attributes applied in order; only `itf(...)` ones count.
pub open spec fn apply_attrs(d: (Seq<char>, Option<Seq<char>>), attrs: Seq<Attribute>) -> (
    Seq<char>,
    Option<Seq<char>>,
)
    decreases attrs.len(),
{
    if attrs.len() == 0 {
        d
    } else {
        let next = match attrs[0] {
            Attribute::Itf(ms) => apply_metas(d, ms@),
            Attribute::Other => d,
        };
        apply_attrs(next, attrs.drop_first())
    }
}

impl Directives {
    /// The settings before any attribute is read: tag field `tag`, no rename.
    pub fn new() -> (r: Directives)
        ensures
            r@ == default_directives(),
    {
        Directives { tag: String::from_str("tag"), rename: None }
    }

    /// Applies one `itf(...)` item.
    pub fn apply(&mut self, m: &Meta)
        ensures
            final(self)@ == apply_meta(old(self)@, *m),
    {
        match m {
            Meta::NameValue(k, v) => {
                let rename = String::from_str("rename");
                let tag = String::from_str("tag");
                if *k == rename {
                    self.rename = Some(v.clone());
                } else if *k == tag {
                    self.tag = v.clone();
                }
            },
            Meta::Other => {},
        }
    }
}

/// Reads the settings of a declaration from its attributes, in order.
pub fn parse_itf_attrs(attrs: &Vec<Attribute>) -> (r: Directives)
    ensures
        r@ == apply_attrs(default_directives(), attrs@),
{
    let mut d = Directives::new();
    let mut i: usize = 0;
    proof {
        assert(attrs@.skip(0) == attrs@);
    }
    while i < attrs.len()
        invariant
            0 <= i <= attrs@.len(),
            apply_attrs(default_directives(), attrs@) == apply_attrs(d@, attrs@.skip(i as int)),
        decreases attrs.len() - i,
    {
        proof {
            assert(attrs@.skip(i as int)[0] == attrs@[i as int]);
            assert(attrs@.skip(i as int).drop_first() == attrs@.skip(i + 1));
        }
        match &attrs[i] {
            Attribute::Itf(ms) => {
                let mut j: usize = 0;
                let ghost start = d@;
                proof {
                    assert(ms@.skip(0) == ms@);
                }
                while j < ms.len()
                    invariant
                        0 <= j <= ms@.len(),
                        apply_metas(start, ms@) == apply_metas(d@, ms@.skip(j as int)),
                    decreases ms.len() - j,
                {
                    proof {
                        assert(ms@.skip(j as int)[0] == ms@[j as int]);
                        assert(ms@.skip(j as int).drop_first() == ms@.skip(j + 1));
                    }
                    d.apply(&ms[j]);
                    j = j + 1;
                }
            },
            Attribute::Other => {},
        }
        i = i + 1;
    }
    d
}

/// The name under which a field or variant is written: its rename, or else
/// the name it was declared with.
pub fn resolved_name(declared: &String, d: &Directives) -> (r: String)
    ensures
        r@ == match d@.1 {
            Some(n) => n,
            None => declared@,
        },
{
    match &d.rename {
        Some(n) => n.clone(),
        None => declared.clone(),
    }
}

/// The fields a variant of an enumeration is declared with.
#[derive(Debug, Clone)]
pub enum FieldsShape {
    Unit,
    Named(Vec<String>),
    Unnamed(usize),
}

/// The two kinds of enumeration that can be decoded.
#[derive(Debug, Clone, Copy, PartialEq, Eq, Structural)]
pub enum EnumKind {
    /// Every variant is a unit: a value is the variant's name as a string.
    UnitOnly,
    /// Every variant has named fields: a value is an internally tagged record.
    NamedOnly,
}

/// Decides how an enumeration is decoded, when it is declared; a mix of
/// shapes, or positional fields, cannot be decoded at all.
pub fn classify_enum(shapes: &Vec<FieldsShape>) -> (r: Option<EnumKind>)
    ensures
        (forall|i: int| 0 <= i < shapes@.len() ==> shapes@[i] is Unit) ==> r == Some(
            EnumKind::UnitOnly,
        ),
        !(forall|i: int| 0 <= i < shapes@.len() ==> shapes@[i] is Unit) ==> (r == Some(
            EnumKind::NamedOnly,
        ) <==> (forall|i: int| 0 <= i < shapes@.len() ==> shapes@[i] is Named)),
        !(forall|i: int| 0 <= i < shapes@.len() ==> shapes@[i] is Unit) ==> r != Some(
            EnumKind::UnitOnly,
        ),
{
    let mut all_unit = true;
    let mut all_named = true;
    let mut i: usize = 0;
    while i < shapes.len()
        invariant
            0 <= i <= shapes@.len(),
            all_unit == (forall|j: int| 0 <= j < i ==> shapes@[j] is Unit),
            all_named == (forall|j: int| 0 <= j < i ==> shapes@[j] is Named),
        decreases shapes.len() - i,
    {
        match &shapes[i] {
            FieldsShape::Unit => {
                all_named = false;
            },
            FieldsShape::Named(_) => {
                all_unit = false;
            },
            FieldsShape::Unnamed(_) => {
                all_unit = false;
                all_named = false;
            },
        }
        i = i + 1;
    }
    if all_unit {
        Some(EnumKind::UnitOnly)
    } else if all_named {
        Some(EnumKind::NamedOnly)
    } else {
        None
    }
}

} // verus!
