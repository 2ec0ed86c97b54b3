//! Directive parsing for the plain-text model format: one line of input
//! becomes a tagged directive value or a parse error.
//!
//! Reading a 32-bit float value out of its text is the one step the library
//! does not perform itself: the line parser returns the float tokens of a
//! `v`/`vt`/`vn` line in a [`FloatFields`] value, the caller converts each
//! token to the bit pattern of the parsed single-precision value (or `None`
//! where the text is malformed), and [`FloatFields::finish`] assembles the
//! directive from those bits. Everything the text alone determines — tags,
//! field structure, integer indices, defaults, error cases — is parsed here,
//! verified.

use vstd::prelude::*;

use crate::numbers::{parse_u32, spec_parse_u32};
use crate::text::{
    lemma_split_len, spec_split, spec_split_once, split_on, split_once_on, str_eq, views_of,
};
use crate::ONE_BITS;

verus! {

/// Everything that can go wrong while parsing a directive or building the
/// mesh. The text-carrying variants name the offending substring.
#[derive(Debug, PartialEq, Eq)]
pub enum Error {
    /// The line has no space separating a tag from its remainder.
    MissingTag,
    /// The tag is not one the grammar knows.
    UnrecognizedTag,
    /// An integer field did not parse; carries the offending text.
    ParseIntError(String),
    /// A float field did not parse; carries the offending text.
    ParseFloatError(String),
    /// A mandatory numeric field is absent.
    MissingNumber,
    /// Some but not all corners of a face carry a normal reference.
    MissingNormal,
    /// Some but not all corners of a face carry a texture-coordinate
    /// reference.
    MissingTextureCoord,
    /// An attribute index falls outside its pool's current bounds.
    InvalidIndex,
}

/// Mathematical value of an [`Error`].
pub enum ErrorV {
    MissingTag,
    UnrecognizedTag,
    ParseIntError(Seq<char>),
    ParseFloatError(Seq<char>),
    MissingNumber,
    MissingNormal,
    MissingTextureCoord,
    InvalidIndex,
}

impl View for Error {
    type V = ErrorV;

    open spec fn view(&self) -> ErrorV {
        match self {
            Error::MissingTag => ErrorV::MissingTag,
            Error::UnrecognizedTag => ErrorV::UnrecognizedTag,
            Error::ParseIntError(s) => ErrorV::ParseIntError(s@),
            Error::ParseFloatError(s) => ErrorV::ParseFloatError(s@),
            Error::MissingNumber => ErrorV::MissingNumber,
            Error::MissingNormal => ErrorV::MissingNormal,
            Error::MissingTextureCoord => ErrorV::MissingTextureCoord,
            Error::InvalidIndex => ErrorV::InvalidIndex,
        }
    }
}

/// A string payload of a directive: either a view into the parsed line or an
/// owned copy, for directives that must outlive the line buffer.
#[derive(Debug)]
pub enum Text<'a> {
    Borrowed(&'a str),
    Owned(String),
}

impl<'a> View for Text<'a> {
    type V = Seq<char>;

    open spec fn view(&self) -> Seq<char> {
        match self {
            Text::Borrowed(s) => s@,
            Text::Owned(s) => s@,
        }
    }
}

impl<'a> Text<'a> {
    /// The payload as a string slice.
    pub fn as_str(&self) -> (r: &str)
        ensures
            r@ == self@,
    {
        match self {
            Text::Borrowed(s) => s,
            Text::Owned(s) => s.as_str(),
        }
    }

    /// An owned copy, free of the parsed line's lifetime.
    pub fn into_owned(self) -> (r: Text<'static>)
        ensures
            r@ == self@,
    {
        match self {
            Text::Borrowed(s) => Text::Owned(s.to_owned()),
            Text::Owned(s) => Text::Owned(s),
        }
    }
}

impl<'a> PartialEq for Text<'a> {
    /// Payloads compare by their text, wherever it lives.
    fn eq(&self, other: &Text<'a>) -> (r: bool)
        ensures
            r == (self@ == other@),
    {
        str_eq(self.as_str(), other.as_str())
    }
}

impl<'a> vstd::std_specs::cmp::PartialEqSpecImpl for Text<'a> {
    open spec fn obeys_eq_spec() -> bool {
        true
    }

    open spec fn eq_spec(&self, other: &Text<'a>) -> bool {
        self@ == other@
    }
}

/// A 4-component position or normal record; each component holds the bit
/// pattern of a single-precision float. `w` defaults to the bits of one when
/// the source text omits it.
#[derive(Copy, Clone, PartialEq, Eq, Structural, Debug, Hash)]
pub struct Vertex {
    pub x: u32,
    pub y: u32,
    pub z: u32,
    pub w: u32,
}

/// A 3-component texture-coordinate record, components as float bit patterns;
/// `w` defaults to the bits of one when absent.
#[derive(Copy, Clone, PartialEq, Eq, Structural, Debug, Hash)]
pub struct TextureCoords {
    pub u: u32,
    pub v: u32,
    pub w: u32,
}

/// One face corner's raw references: a required position index and optional
/// texture-coordinate and normal indices. Indices are 1-based in the source
/// text; a parsed value of zero in an optional slot means "absent".
#[derive(Copy, Clone, PartialEq, Eq, PartialOrd, Ord, Debug, Hash)]
pub struct VertexIndices {
    pub position: u32,
    pub texture_coords: Option<u32>,
    pub normal: Option<u32>,
}

/// Zero folds to "absent"; the source numbering is 1-based, so zero is never
/// a valid forward reference.
pub open spec fn opt_nonzero(v: u32) -> Option<u32> {
    if v == 0 {
        None
    } else {
        Some(v)
    }
}

/// Field `k` of a corner token read as an unsigned integer: an absent or
/// empty field stands for zero; otherwise the field must parse.
pub open spec fn spec_field_u32(fields: Seq<Seq<char>>, k: int) -> Option<u32> {
    if fields.len() <= k || fields[k].len() == 0 {
        Some(0u32)
    } else {
        spec_parse_u32(fields[k])
    }
}

/// The corner token `s` split on `/` and read as an index triple: up to three
/// fields, position first, then texture coordinate, then normal.
pub open spec fn spec_parse_indices(s: Seq<char>) -> Result<VertexIndices, ErrorV> {
    let fields = spec_split(s, '/');
    if fields.len() > 3 {
        Err(ErrorV::ParseIntError(s))
    } else {
        match spec_field_u32(fields, 0) {
            None => Err(ErrorV::ParseIntError(fields[0])),
            Some(position) => match spec_field_u32(fields, 1) {
                None => Err(ErrorV::ParseIntError(fields[1])),
                Some(tc) => match spec_field_u32(fields, 2) {
                    None => Err(ErrorV::ParseIntError(fields[2])),
                    Some(nrm) => Ok(
                        VertexIndices {
                            position,
                            texture_coords: opt_nonzero(tc),
                            normal: opt_nonzero(nrm),
                        },
                    ),
                },
            },
        }
    }
}

impl VertexIndices {
    /// Parse a face-corner token, `position[/texcoord[/normal]]`.
    ///
    /// An empty or absent field stands for zero; zero in an optional slot
    /// folds to "absent". A token of more than three fields, or a field that
    /// is not a decimal integer, is malformed.
    pub fn from_str(s: &str) -> (r: Result<VertexIndices, Error>)
        ensures
            (match r {
                Ok(v) => spec_parse_indices(s@) == Ok::<VertexIndices, ErrorV>(v),
                Err(e) => spec_parse_indices(s@) == Err::<VertexIndices, ErrorV>(e@),
            }),
    {
        let fields = split_on(s, '/');
        proof {
            lemma_split_len(s@, '/');
        }
        if fields.len() > 3 {
            return Err(Error::ParseIntError(s.to_owned()));
        }
        let position: u32 = if fields[0].is_empty() {
            0
        } else {
            match parse_u32(fields[0]) {
                Some(v) => v,
                None => {
                    return Err(Error::ParseIntError(fields[0].to_owned()));
                },
            }
        };
        let texture_coords: Option<u32> = if fields.len() >= 2 && !fields[1].is_empty() {
            match parse_u32(fields[1]) {
                Some(v) => if v == 0 {
                    None
                } else {
                    Some(v)
                },
                None => {
                    return Err(Error::ParseIntError(fields[1].to_owned()));
                },
            }
        } else {
            None
        };
        let normal: Option<u32> = if fields.len() >= 3 && !fields[2].is_empty() {
            match parse_u32(fields[2]) {
                Some(v) => if v == 0 {
                    None
                } else {
                    Some(v)
                },
                None => {
                    return Err(Error::ParseIntError(fields[2].to_owned()));
                },
            }
        } else {
            None
        };
        Ok(VertexIndices { position, texture_coords, normal })
    }
}

/// The bit at slot `i`, an absent slot standing for a failed parse.
pub open spec fn spec_bit_at(bits: Seq<Option<u32>>, i: int) -> Option<u32> {
    if 0 <= i < bits.len() {
        bits[i]
    } else {
        None
    }
}

/// A position/normal record assembled from its split fields and the float
/// bits read from them: three mandatory components, then an optional fourth
/// defaulting to one; fields beyond the fourth are ignored.
pub open spec fn spec_vertex_from_fields(fields: Seq<Seq<char>>, bits: Seq<Option<u32>>) -> Result<
    Vertex,
    ErrorV,
> {
    if fields.len() < 1 {
        Err(ErrorV::MissingNumber)
    } else {
        match spec_bit_at(bits, 0) {
            None => Err(ErrorV::ParseFloatError(fields[0])),
            Some(x) => if fields.len() < 2 {
                Err(ErrorV::MissingNumber)
            } else {
                match spec_bit_at(bits, 1) {
                    None => Err(ErrorV::ParseFloatError(fields[1])),
                    Some(y) => if fields.len() < 3 {
                        Err(ErrorV::MissingNumber)
                    } else {
                        match spec_bit_at(bits, 2) {
                            None => Err(ErrorV::ParseFloatError(fields[2])),
                            Some(z) => if fields.len() < 4 {
                                Ok(Vertex { x, y, z, w: ONE_BITS })
                            } else {
                                match spec_bit_at(bits, 3) {
                                    None => Err(ErrorV::ParseFloatError(fields[3])),
                                    Some(w) => Ok(Vertex { x, y, z, w }),
                                }
                            },
                        }
                    },
                }
            },
        }
    }
}

/// A texture-coordinate record from its fields and bits: two mandatory
/// components, then an optional third defaulting to one.
pub open spec fn spec_texcoords_from_fields(
    fields: Seq<Seq<char>>,
    bits: Seq<Option<u32>>,
) -> Result<TextureCoords, ErrorV> {
    if fields.len() < 1 {
        Err(ErrorV::MissingNumber)
    } else {
        match spec_bit_at(bits, 0) {
            None => Err(ErrorV::ParseFloatError(fields[0])),
            Some(u) => if fields.len() < 2 {
                Err(ErrorV::MissingNumber)
            } else {
                match spec_bit_at(bits, 1) {
                    None => Err(ErrorV::ParseFloatError(fields[1])),
                    Some(v) => if fields.len() < 3 {
                        Ok(TextureCoords { u, v, w: ONE_BITS })
                    } else {
                        match spec_bit_at(bits, 2) {
                            None => Err(ErrorV::ParseFloatError(fields[2])),
                            Some(w) => Ok(TextureCoords { u, v, w }),
                        }
                    },
                }
            },
        }
    }
}

fn bit_at(bits: &Vec<Option<u32>>, i: usize) -> (r: Option<u32>)
    ensures
        r == spec_bit_at(bits@, i as int),
{
    if i < bits.len() {
        bits[i]
    } else {
        None
    }
}

impl Vertex {
    /// Assemble a position or normal record from the split fields of its
    /// line remainder and the float bits read from those fields.
    pub fn from_fields(fields: &Vec<&str>, bits: &Vec<Option<u32>>) -> (r: Result<Vertex, Error>)
        ensures
            (match r {
                Ok(v) => spec_vertex_from_fields(views_of(fields@), bits@) == Ok::<
                    Vertex,
                    ErrorV,
                >(v),
                Err(e) => spec_vertex_from_fields(views_of(fields@), bits@) == Err::<
                    Vertex,
                    ErrorV,
                >(e@),
            }),
    {
        if fields.len() < 1 {
            return Err(Error::MissingNumber);
        }
        let x = match bit_at(bits, 0) {
            Some(b) => b,
            None => {
                return Err(Error::ParseFloatError(fields[0].to_owned()));
            },
        };
        if fields.len() < 2 {
            return Err(Error::MissingNumber);
        }
        let y = match bit_at(bits, 1) {
            Some(b) => b,
            None => {
                return Err(Error::ParseFloatError(fields[1].to_owned()));
            },
        };
        if fields.len() < 3 {
            return Err(Error::MissingNumber);
        }
        let z = match bit_at(bits, 2) {
            Some(b) => b,
            None => {
                return Err(Error::ParseFloatError(fields[2].to_owned()));
            },
        };
        let w = if fields.len() < 4 {
            ONE_BITS
        } else {
            match bit_at(bits, 3) {
                Some(b) => b,
                None => {
                    return Err(Error::ParseFloatError(fields[3].to_owned()));
                },
            }
        };
        Ok(Vertex { x, y, z, w })
    }
}

impl TextureCoords {
    /// Assemble a texture-coordinate record from the split fields of its
    /// line remainder and the float bits read from those fields.
    pub fn from_fields(fields: &Vec<&str>, bits: &Vec<Option<u32>>) -> (r: Result<
        TextureCoords,
        Error,
    >)
        ensures
            (match r {
                Ok(t) => spec_texcoords_from_fields(views_of(fields@), bits@) == Ok::<
                    TextureCoords,
                    ErrorV,
                >(t),
                Err(e) => spec_texcoords_from_fields(views_of(fields@), bits@) == Err::<
                    TextureCoords,
                    ErrorV,
                >(e@),
            }),
    {
        if fields.len() < 1 {
            return Err(Error::MissingNumber);
        }
        let u = match bit_at(bits, 0) {
            Some(b) => b,
            None => {
                return Err(Error::ParseFloatError(fields[0].to_owned()));
            },
        };
        if fields.len() < 2 {
            return Err(Error::MissingNumber);
        }
        let v = match bit_at(bits, 1) {
            Some(b) => b,
            None => {
                return Err(Error::ParseFloatError(fields[1].to_owned()));
            },
        };
        let w = if fields.len() < 3 {
            ONE_BITS
        } else {
            match bit_at(bits, 2) {
                Some(b) => b,
                None => {
                    return Err(Error::ParseFloatError(fields[2].to_owned()));
                },
            }
        };
        Ok(TextureCoords { u, v, w })
    }
}

/// One parsed directive, tagged by its source keyword.
#[derive(Debug, PartialEq)]
pub enum Line<'a> {
    Vertex(Vertex),
    Normal(Vertex),
    TextureCoords(TextureCoords),
    Point(VertexIndices),
    Line(VertexIndices, VertexIndices),
    Face(VertexIndices, VertexIndices, VertexIndices),
    SmoothingGroup(Option<u32>),
    Group(Text<'a>),
    UseMtl(Text<'a>),
    MtlLib(Text<'a>),
    Name(Text<'a>),
    Comment(Text<'a>),
}

/// Mathematical value of a [`Line`].
pub enum LineV {
    Vertex(Vertex),
    Normal(Vertex),
    TextureCoords(TextureCoords),
    Point(VertexIndices),
    Line(VertexIndices, VertexIndices),
    Face(VertexIndices, VertexIndices, VertexIndices),
    SmoothingGroup(Option<u32>),
    Group(Seq<char>),
    UseMtl(Seq<char>),
    MtlLib(Seq<char>),
    Name(Seq<char>),
    Comment(Seq<char>),
}

impl<'a> View for Line<'a> {
    type V = LineV;

    open spec fn view(&self) -> LineV {
        match self {
            Line::Vertex(v) => LineV::Vertex(*v),
            Line::Normal(v) => LineV::Normal(*v),
            Line::TextureCoords(t) => LineV::TextureCoords(*t),
            Line::Point(p) => LineV::Point(*p),
            Line::Line(p1, p2) => LineV::Line(*p1, *p2),
            Line::Face(p1, p2, p3) => LineV::Face(*p1, *p2, *p3),
            Line::SmoothingGroup(g) => LineV::SmoothingGroup(*g),
            Line::Group(t) => LineV::Group(t@),
            Line::UseMtl(t) => LineV::UseMtl(t@),
            Line::MtlLib(t) => LineV::MtlLib(t@),
            Line::Name(t) => LineV::Name(t@),
            Line::Comment(t) => LineV::Comment(t@),
        }
    }
}

/// Which float record a `v`/`vt`/`vn` line declares.
#[derive(Copy, Clone, PartialEq, Eq, Structural, Debug)]
pub enum FloatRecordKind {
    Position,
    Normal,
    TexCoords,
}

/// The float tokens of a `v`/`vt`/`vn` line, waiting for their values: the
/// remainder split on spaces, each field to be read as a single-precision
/// float by the caller.
#[derive(Debug)]
pub struct FloatFields<'a> {
    pub kind: FloatRecordKind,
    pub fields: Vec<&'a str>,
}

/// A line parsed as far as its text alone determines it: either a finished
/// directive, or a float record still waiting for its numeric values.
#[derive(Debug)]
pub enum Scanned<'a> {
    Ready(Line<'a>),
    Floats(FloatFields<'a>),
}

/// Mathematical value of a [`Scanned`].
pub enum ScannedV {
    Ready(LineV),
    Floats(FloatRecordKind, Seq<Seq<char>>),
}

impl<'a> View for Scanned<'a> {
    type V = ScannedV;

    open spec fn view(&self) -> ScannedV {
        match self {
            Scanned::Ready(l) => ScannedV::Ready(l@),
            Scanned::Floats(ff) => ScannedV::Floats(ff.kind, views_of(ff.fields@)),
        }
    }
}

/// A `p`/`l`/`f` remainder read as corner tokens: `count` space-separated
/// index triples, later tokens ignored.
pub open spec fn spec_parse_corners(parts: Seq<Seq<char>>, count: int) -> Result<
    Seq<VertexIndices>,
    ErrorV,
>
    decreases count,
{
    if count <= 0 {
        Ok(Seq::empty())
    } else {
        match spec_parse_corners(parts, count - 1) {
            Err(e) => Err(e),
            Ok(done) => if parts.len() < count {
                Err(ErrorV::MissingNumber)
            } else {
                match spec_parse_indices(parts[count - 1]) {
                    Err(e) => Err(e),
                    Ok(vi) => Ok(done.push(vi)),
                }
            },
        }
    }
}

/// One line of text read as far as the text alone determines it.
///
/// The tag and the remainder part at the first space; the tag selects the
/// directive. `v`/`vt`/`vn` lines come back as their split float fields,
/// still waiting for numeric values; every other recognized tag yields a
/// finished directive or its parse error.
pub open spec fn spec_scan(line: Seq<char>) -> Result<ScannedV, ErrorV> {
    match spec_split_once(line, ' ') {
        None => Err(ErrorV::MissingTag),
        Some((tag, rest)) => {
            if tag == "#"@ {
                Ok(ScannedV::Ready(LineV::Comment(rest)))
            } else if tag == "o"@ {
                Ok(ScannedV::Ready(LineV::Name(rest)))
            } else if tag == "usemtl"@ {
                Ok(ScannedV::Ready(LineV::UseMtl(rest)))
            } else if tag == "mtllib"@ {
                Ok(ScannedV::Ready(LineV::MtlLib(rest)))
            } else if tag == "g"@ {
                Ok(ScannedV::Ready(LineV::Group(rest)))
            } else if tag == "v"@ {
                Ok(ScannedV::Floats(FloatRecordKind::Position, spec_split(rest, ' ')))
            } else if tag == "vt"@ {
                Ok(ScannedV::Floats(FloatRecordKind::TexCoords, spec_split(rest, ' ')))
            } else if tag == "vn"@ {
                Ok(ScannedV::Floats(FloatRecordKind::Normal, spec_split(rest, ' ')))
            } else if tag == "p"@ {
                match spec_parse_corners(spec_split(rest, ' '), 1) {
                    Err(e) => Err(e),
                    Ok(c) => Ok(ScannedV::Ready(LineV::Point(c[0]))),
                }
            } else if tag == "l"@ {
                match spec_parse_corners(spec_split(rest, ' '), 2) {
                    Err(e) => Err(e),
                    Ok(c) => Ok(ScannedV::Ready(LineV::Line(c[0], c[1]))),
                }
            } else if tag == "f"@ {
                match spec_parse_corners(spec_split(rest, ' '), 3) {
                    Err(e) => Err(e),
                    Ok(c) => Ok(ScannedV::Ready(LineV::Face(c[0], c[1], c[2]))),
                }
            } else if tag == "s"@ {
                if rest == "off"@ {
                    Ok(ScannedV::Ready(LineV::SmoothingGroup(None)))
                } else {
                    match spec_parse_u32(rest) {
                        None => Err(ErrorV::ParseIntError(rest)),
                        Some(v) => Ok(ScannedV::Ready(LineV::SmoothingGroup(opt_nonzero(v)))),
                    }
                }
            } else {
                Err(ErrorV::UnrecognizedTag)
            }
        },
    }
}

impl<'a> Line<'a> {
    /// An owned copy of the directive, free of the parsed line's lifetime.
    pub fn to_static(self) -> (r: Line<'static>)
        ensures
            r@ == self@,
    {
        match self {
            Line::Group(name) => Line::Group(name.into_owned()),
            Line::UseMtl(name) => Line::UseMtl(name.into_owned()),
            Line::MtlLib(name) => Line::MtlLib(name.into_owned()),
            Line::Name(name) => Line::Name(name.into_owned()),
            Line::Comment(name) => Line::Comment(name.into_owned()),
            Line::Vertex(x) => Line::Vertex(x),
            Line::Normal(x) => Line::Normal(x),
            Line::TextureCoords(x) => Line::TextureCoords(x),
            Line::Point(p1) => Line::Point(p1),
            Line::SmoothingGroup(g) => Line::SmoothingGroup(g),
            Line::Line(p1, p2) => Line::Line(p1, p2),
            Line::Face(p1, p2, p3) => Line::Face(p1, p2, p3),
        }
    }

    /// Parse one line as far as its text alone determines it.
    pub fn process_line(line: &'a str) -> (r: Result<Scanned<'a>, Error>)
        ensures
            (match r {
                Ok(sc) => spec_scan(line@) == Ok::<ScannedV, ErrorV>(sc@),
                Err(e) => spec_scan(line@) == Err::<ScannedV, ErrorV>(e@),
            }),
    {
        let (tag, rest) = match split_once_on(line, ' ') {
            Some(p) => p,
            None => {
                return Err(Error::MissingTag);
            },
        };
        if str_eq(tag, "#") {
            Ok(Scanned::Ready(Line::Comment(Text::Borrowed(rest))))
        } else if str_eq(tag, "o") {
            Ok(Scanned::Ready(Line::Name(Text::Borrowed(rest))))
        } else if str_eq(tag, "usemtl") {
            Ok(Scanned::Ready(Line::UseMtl(Text::Borrowed(rest))))
        } else if str_eq(tag, "mtllib") {
            Ok(Scanned::Ready(Line::MtlLib(Text::Borrowed(rest))))
        } else if str_eq(tag, "g") {
            Ok(Scanned::Ready(Line::Group(Text::Borrowed(rest))))
        } else if str_eq(tag, "v") {
            Ok(
                Scanned::Floats(
                    FloatFields { kind: FloatRecordKind::Position, fields: split_on(rest, ' ') },
                ),
            )
        } else if str_eq(tag, "vt") {
            Ok(
                Scanned::Floats(
                    FloatFields { kind: FloatRecordKind::TexCoords, fields: split_on(rest, ' ') },
                ),
            )
        } else if str_eq(tag, "vn") {
            Ok(
                Scanned::Floats(
                    FloatFields { kind: FloatRecordKind::Normal, fields: split_on(rest, ' ') },
                ),
            )
        } else if str_eq(tag, "p") {
            let parts = split_on(rest, ' ');
            proof {
                lemma_split_len(rest@, ' ');
                reveal_with_fuel(spec_parse_corners, 4);
            }
            let p1 = match VertexIndices::from_str(parts[0]) {
                Ok(v) => v,
                Err(e) => {
                    return Err(e);
                },
            };
            Ok(Scanned::Ready(Line::Point(p1)))
        } else if str_eq(tag, "l") {
            let parts = split_on(rest, ' ');
            proof {
                lemma_split_len(rest@, ' ');
                reveal_with_fuel(spec_parse_corners, 4);
            }
            let p1 = match VertexIndices::from_str(parts[0]) {
                Ok(v) => v,
                Err(e) => {
                    return Err(e);
                },
            };
            if parts.len() < 2 {
                return Err(Error::MissingNumber);
            }
            let p2 = match VertexIndices::from_str(parts[1]) {
                Ok(v) => v,
                Err(e) => {
                    return Err(e);
                },
            };
            Ok(Scanned::Ready(Line::Line(p1, p2)))
        } else if str_eq(tag, "f") {
            let parts = split_on(rest, ' ');
            proof {
                lemma_split_len(rest@, ' ');
                reveal_with_fuel(spec_parse_corners, 4);
            }
            let p1 = match VertexIndices::from_str(parts[0]) {
                Ok(v) => v,
                Err(e) => {
                    return Err(e);
                },
            };
            if parts.len() < 2 {
                return Err(Error::MissingNumber);
            }
            let p2 = match VertexIndices::from_str(parts[1]) {
                Ok(v) => v,
                Err(e) => {
                    return Err(e);
                },
            };
            if parts.len() < 3 {
                return Err(Error::MissingNumber);
            }
            let p3 = match VertexIndices::from_str(parts[2]) {
                Ok(v) => v,
                Err(e) => {
                    return Err(e);
                },
            };
            Ok(Scanned::Ready(Line::Face(p1, p2, p3)))
        } else if str_eq(tag, "s") {
            if str_eq(rest, "off") {
                Ok(Scanned::Ready(Line::SmoothingGroup(None)))
            } else {
                match parse_u32(rest) {
                    Some(v) => Ok(
                        Scanned::Ready(
                            Line::SmoothingGroup(
                                if v == 0 {
                                    None
                                } else {
                                    Some(v)
                                },
                            ),
                        ),
                    ),
                    None => Err(Error::ParseIntError(rest.to_owned())),
                }
            }
        } else {
            Err(Error::UnrecognizedTag)
        }
    }
}

/// The composed meaning of a scanned line once the float bits are known:
/// what [`FloatFields::finish`] yields for a float record, the finished
/// directive otherwise.
pub open spec fn spec_finish(kind: FloatRecordKind, fields: Seq<Seq<char>>, bits: Seq<
    Option<u32>,
>) -> Result<LineV, ErrorV> {
    match kind {
        FloatRecordKind::Position => match spec_vertex_from_fields(fields, bits) {
            Ok(v) => Ok(LineV::Vertex(v)),
            Err(e) => Err(e),
        },
        FloatRecordKind::Normal => match spec_vertex_from_fields(fields, bits) {
            Ok(v) => Ok(LineV::Normal(v)),
            Err(e) => Err(e),
        },
        FloatRecordKind::TexCoords => match spec_texcoords_from_fields(fields, bits) {
            Ok(t) => Ok(LineV::TextureCoords(t)),
            Err(e) => Err(e),
        },
    }
}

impl<'a> FloatFields<'a> {
    /// Assemble the directive once the caller has read each float field:
    /// `bits[i]` holds the bit pattern of the single-precision value of
    /// `fields[i]`, or `None` where that text does not parse as a float.
    pub fn finish(&self, bits: &Vec<Option<u32>>) -> (r: Result<Line<'a>, Error>)
        ensures
            (match r {
                Ok(l) => spec_finish(self.kind, views_of(self.fields@), bits@) == Ok::<
                    LineV,
                    ErrorV,
                >(l@),
                Err(e) => spec_finish(self.kind, views_of(self.fields@), bits@) == Err::<
                    LineV,
                    ErrorV,
                >(e@),
            }),
    {
        match self.kind {
            FloatRecordKind::Position => match Vertex::from_fields(&self.fields, bits) {
                Ok(v) => Ok(Line::Vertex(v)),
                Err(e) => Err(e),
            },
            FloatRecordKind::Normal => match Vertex::from_fields(&self.fields, bits) {
                Ok(v) => Ok(Line::Normal(v)),
                Err(e) => Err(e),
            },
            FloatRecordKind::TexCoords => match TextureCoords::from_fields(&self.fields, bits) {
                Ok(t) => Ok(Line::TextureCoords(t)),
                Err(e) => Err(e),
            },
        }
    }
}

} // verus!
