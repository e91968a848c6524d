//! The enumerations of the dialect: drawing revisions and the coded values
//! a few entity fields carry.
use vstd::prelude::*;
use vstd::string::StringSliceAdditionalSpecFns;

verus! {

/// A drawing revision.  Revisions are ordered; fields and whole entities
/// can be gated to a revision range.
#[derive(Clone, Copy, Debug, PartialEq, Eq, Structural)]
pub enum AcadVersion {
    R10,
    R11,
    R12,
    R13,
    R14,
    R2000,
    R2004,
    R2007,
    R2010,
    R2013,
}

impl AcadVersion {
    /// The rank of a revision in release order.
    pub open spec fn ord(self) -> int {
        match self {
            AcadVersion::R10 => 0,
            AcadVersion::R11 => 1,
            AcadVersion::R12 => 2,
            AcadVersion::R13 => 3,
            AcadVersion::R14 => 4,
            AcadVersion::R2000 => 5,
            AcadVersion::R2004 => 6,
            AcadVersion::R2007 => 7,
            AcadVersion::R2010 => 8,
            AcadVersion::R2013 => 9,
        }
    }

    /// The rank of a revision in release order.
    pub fn rank(self) -> (r: u8)
        ensures
            r as int == self.ord(),
    {
        match self {
            AcadVersion::R10 => 0,
            AcadVersion::R11 => 1,
            AcadVersion::R12 => 2,
            AcadVersion::R13 => 3,
            AcadVersion::R14 => 4,
            AcadVersion::R2000 => 5,
            AcadVersion::R2004 => 6,
            AcadVersion::R2007 => 7,
            AcadVersion::R2010 => 8,
            AcadVersion::R2013 => 9,
        }
    }

    /// Whether this revision is `other` or later.
    pub fn at_least(self, other: AcadVersion) -> (r: bool)
        ensures
            r == (self.ord() >= other.ord()),
    {
        self.rank() >= other.rank()
    }

    /// Whether this revision is `other` or earlier.
    pub fn at_most(self, other: AcadVersion) -> (r: bool)
        ensures
            r == (self.ord() <= other.ord()),
    {
        self.rank() <= other.rank()
    }

    /// The revision a header version string names; two revisions share one
    /// string, and reading it yields the later of the two.
    pub fn from_version_string(s: &str) -> (r: Option<AcadVersion>)
        ensures
            r == spec_version_from_string(s@),
    {
        if str_eq(s, "AC1006") {
            Some(AcadVersion::R10)
        } else if str_eq(s, "AC1009") {
            Some(AcadVersion::R12)
        } else if str_eq(s, "AC1012") {
            Some(AcadVersion::R13)
        } else if str_eq(s, "AC1014") {
            Some(AcadVersion::R14)
        } else if str_eq(s, "AC1015") {
            Some(AcadVersion::R2000)
        } else if str_eq(s, "AC1018") {
            Some(AcadVersion::R2004)
        } else if str_eq(s, "AC1021") {
            Some(AcadVersion::R2007)
        } else if str_eq(s, "AC1024") {
            Some(AcadVersion::R2010)
        } else if str_eq(s, "AC1027") {
            Some(AcadVersion::R2013)
        } else {
            None
        }
    }

    /// The header version string of this revision.
    pub fn to_version_string(self) -> (r: &'static str)
        ensures
            r@ == spec_version_string(self),
            vstd::utf8::is_ascii_chars(r@),
    {
        proof {
            reveal_strlit("AC1006");
            reveal_strlit("AC1009");
            reveal_strlit("AC1012");
            reveal_strlit("AC1014");
            reveal_strlit("AC1015");
            reveal_strlit("AC1018");
            reveal_strlit("AC1021");
            reveal_strlit("AC1024");
            reveal_strlit("AC1027");
        }
        match self {
            AcadVersion::R10 => "AC1006",
            AcadVersion::R11 => "AC1009",
            AcadVersion::R12 => "AC1009",
            AcadVersion::R13 => "AC1012",
            AcadVersion::R14 => "AC1014",
            AcadVersion::R2000 => "AC1015",
            AcadVersion::R2004 => "AC1018",
            AcadVersion::R2007 => "AC1021",
            AcadVersion::R2010 => "AC1024",
            AcadVersion::R2013 => "AC1027",
        }
    }
}

/// The header version string of each revision.
pub open spec fn spec_version_string(v: AcadVersion) -> Seq<char> {
    match v {
        AcadVersion::R10 => "AC1006"@,
        AcadVersion::R11 => "AC1009"@,
        AcadVersion::R12 => "AC1009"@,
        AcadVersion::R13 => "AC1012"@,
        AcadVersion::R14 => "AC1014"@,
        AcadVersion::R2000 => "AC1015"@,
        AcadVersion::R2004 => "AC1018"@,
        AcadVersion::R2007 => "AC1021"@,
        AcadVersion::R2010 => "AC1024"@,
        AcadVersion::R2013 => "AC1027"@,
    }
}

/// The revision each header version string names.
pub open spec fn spec_version_from_string(s: Seq<char>) -> Option<AcadVersion> {
    if s == "AC1006"@ {
        Some(AcadVersion::R10)
    } else if s == "AC1009"@ {
        Some(AcadVersion::R12)
    } else if s == "AC1012"@ {
        Some(AcadVersion::R13)
    } else if s == "AC1014"@ {
        Some(AcadVersion::R14)
    } else if s == "AC1015"@ {
        Some(AcadVersion::R2000)
    } else if s == "AC1018"@ {
        Some(AcadVersion::R2004)
    } else if s == "AC1021"@ {
        Some(AcadVersion::R2007)
    } else if s == "AC1024"@ {
        Some(AcadVersion::R2010)
    } else if s == "AC1027"@ {
        Some(AcadVersion::R2013)
    } else {
        None
    }
}

/// Compares two strings for equal characters.
pub fn str_eq(a: &str, b: &str) -> (r: bool)
    ensures
        r == (a@ == b@),
{
    let sa: String = a.to_owned();
    let sb: String = b.to_owned();
    sa == sb
}

/// Where multi-line text hangs off its insertion point.
#[derive(Clone, Copy, Debug, PartialEq, Eq, Structural)]
pub enum AttachmentPoint {
    TopLeft,
    TopCenter,
    TopRight,
    MiddleLeft,
    MiddleCenter,
    MiddleRight,
    BottomLeft,
    BottomCenter,
    BottomRight,
}

/// The attachment point a coded value names, if any.
pub open spec fn spec_attachment_point(v: int) -> Option<AttachmentPoint> {
    if v == 1 {
        Some(AttachmentPoint::TopLeft)
    } else if v == 2 {
        Some(AttachmentPoint::TopCenter)
    } else if v == 3 {
        Some(AttachmentPoint::TopRight)
    } else if v == 4 {
        Some(AttachmentPoint::MiddleLeft)
    } else if v == 5 {
        Some(AttachmentPoint::MiddleCenter)
    } else if v == 6 {
        Some(AttachmentPoint::MiddleRight)
    } else if v == 7 {
        Some(AttachmentPoint::BottomLeft)
    } else if v == 8 {
        Some(AttachmentPoint::BottomCenter)
    } else if v == 9 {
        Some(AttachmentPoint::BottomRight)
    } else {
        None
    }
}

/// The coded value of an attachment point.
pub open spec fn spec_attachment_code(v: AttachmentPoint) -> int {
    match v {
        AttachmentPoint::TopLeft => 1,
        AttachmentPoint::TopCenter => 2,
        AttachmentPoint::TopRight => 3,
        AttachmentPoint::MiddleLeft => 4,
        AttachmentPoint::MiddleCenter => 5,
        AttachmentPoint::MiddleRight => 6,
        AttachmentPoint::BottomLeft => 7,
        AttachmentPoint::BottomCenter => 8,
        AttachmentPoint::BottomRight => 9,
    }
}

impl AttachmentPoint {
    /// Reads an attachment point from its coded value.
    pub fn from_i16(v: i16) -> (r: Option<AttachmentPoint>)
        ensures
            r == spec_attachment_point(v as int),
    {
        if v == 1 {
            Some(AttachmentPoint::TopLeft)
        } else if v == 2 {
            Some(AttachmentPoint::TopCenter)
        } else if v == 3 {
            Some(AttachmentPoint::TopRight)
        } else if v == 4 {
            Some(AttachmentPoint::MiddleLeft)
        } else if v == 5 {
            Some(AttachmentPoint::MiddleCenter)
        } else if v == 6 {
            Some(AttachmentPoint::MiddleRight)
        } else if v == 7 {
            Some(AttachmentPoint::BottomLeft)
        } else if v == 8 {
            Some(AttachmentPoint::BottomCenter)
        } else if v == 9 {
            Some(AttachmentPoint::BottomRight)
        } else {
            None
        }
    }

    /// The coded value of this attachment point.
    pub fn as_i16(self) -> (r: i16)
        ensures
            spec_attachment_point(r as int) == Some(self),
            r as int == spec_attachment_code(self),
    {
        match self {
            AttachmentPoint::TopLeft => 1,
            AttachmentPoint::TopCenter => 2,
            AttachmentPoint::TopRight => 3,
            AttachmentPoint::MiddleLeft => 4,
            AttachmentPoint::MiddleCenter => 5,
            AttachmentPoint::MiddleRight => 6,
            AttachmentPoint::BottomLeft => 7,
            AttachmentPoint::BottomCenter => 8,
            AttachmentPoint::BottomRight => 9,
        }
    }
}

/// The flow of multi-line text.
#[derive(Clone, Copy, Debug, PartialEq, Eq, Structural)]
pub enum DrawingDirection {
    LeftToRight,
    TopToBottom,
    ByStyle,
}

/// The drawing direction a coded value names, if any.
pub open spec fn spec_drawing_direction(v: int) -> Option<DrawingDirection> {
    if v == 1 {
        Some(DrawingDirection::LeftToRight)
    } else if v == 3 {
        Some(DrawingDirection::TopToBottom)
    } else if v == 5 {
        Some(DrawingDirection::ByStyle)
    } else {
        None
    }
}

/// The coded value of a drawing direction.
pub open spec fn spec_drawing_direction_code(v: DrawingDirection) -> int {
    match v {
        DrawingDirection::LeftToRight => 1,
        DrawingDirection::TopToBottom => 3,
        DrawingDirection::ByStyle => 5,
    }
}

impl DrawingDirection {
    /// Reads a drawing direction from its coded value.
    pub fn from_i16(v: i16) -> (r: Option<DrawingDirection>)
        ensures
            r == spec_drawing_direction(v as int),
    {
        if v == 1 {
            Some(DrawingDirection::LeftToRight)
        } else if v == 3 {
            Some(DrawingDirection::TopToBottom)
        } else if v == 5 {
            Some(DrawingDirection::ByStyle)
        } else {
            None
        }
    }

    /// The coded value of this drawing direction.
    pub fn as_i16(self) -> (r: i16)
        ensures
            spec_drawing_direction(r as int) == Some(self),
            r as int == spec_drawing_direction_code(self),
    {
        match self {
            DrawingDirection::LeftToRight => 1,
            DrawingDirection::TopToBottom => 3,
            DrawingDirection::ByStyle => 5,
        }
    }
}

/// How the line spacing of multi-line text is taken.
#[derive(Clone, Copy, Debug, PartialEq, Eq, Structural)]
pub enum MTextLineSpacingStyle {
    AtLeast,
    Exact,
}

/// The line spacing style a coded value names, if any.
pub open spec fn spec_line_spacing_style(v: int) -> Option<MTextLineSpacingStyle> {
    if v == 1 {
        Some(MTextLineSpacingStyle::AtLeast)
    } else if v == 2 {
        Some(MTextLineSpacingStyle::Exact)
    } else {
        None
    }
}

/// The coded value of a line spacing style.
pub open spec fn spec_line_spacing_code(v: MTextLineSpacingStyle) -> int {
    match v {
        MTextLineSpacingStyle::AtLeast => 1,
        MTextLineSpacingStyle::Exact => 2,
    }
}

impl MTextLineSpacingStyle {
    /// Reads a line spacing style from its coded value.
    pub fn from_i16(v: i16) -> (r: Option<MTextLineSpacingStyle>)
        ensures
            r == spec_line_spacing_style(v as int),
    {
        if v == 1 {
            Some(MTextLineSpacingStyle::AtLeast)
        } else if v == 2 {
            Some(MTextLineSpacingStyle::Exact)
        } else {
            None
        }
    }

    /// The coded value of this line spacing style.
    pub fn as_i16(self) -> (r: i16)
        ensures
            spec_line_spacing_style(r as int) == Some(self),
            r as int == spec_line_spacing_code(self),
    {
        match self {
            MTextLineSpacingStyle::AtLeast => 1,
            MTextLineSpacingStyle::Exact => 2,
        }
    }
}

/// How the background of multi-line text is filled.
#[derive(Clone, Copy, Debug, PartialEq, Eq, Structural)]
pub enum BackgroundFillSetting {
    Off,
    UseBackgroundFillColor,
    UseDrawingWindowColor,
}

/// The background fill setting a coded value names, if any.
pub open spec fn spec_background_fill_setting(v: int) -> Option<BackgroundFillSetting> {
    if v == 0 {
        Some(BackgroundFillSetting::Off)
    } else if v == 1 {
        Some(BackgroundFillSetting::UseBackgroundFillColor)
    } else if v == 2 {
        Some(BackgroundFillSetting::UseDrawingWindowColor)
    } else {
        None
    }
}

/// The coded value of a background fill setting.
pub open spec fn spec_background_fill_code(v: BackgroundFillSetting) -> int {
    match v {
        BackgroundFillSetting::Off => 0,
        BackgroundFillSetting::UseBackgroundFillColor => 1,
        BackgroundFillSetting::UseDrawingWindowColor => 2,
    }
}

impl BackgroundFillSetting {
    /// Reads a background fill setting from its coded value.
    pub fn from_i32(v: i32) -> (r: Option<BackgroundFillSetting>)
        ensures
            r == spec_background_fill_setting(v as int),
    {
        if v == 0 {
            Some(BackgroundFillSetting::Off)
        } else if v == 1 {
            Some(BackgroundFillSetting::UseBackgroundFillColor)
        } else if v == 2 {
            Some(BackgroundFillSetting::UseDrawingWindowColor)
        } else {
            None
        }
    }

    /// The coded value of this background fill setting.
    pub fn as_i32(self) -> (r: i32)
        ensures
            spec_background_fill_setting(r as int) == Some(self),
            r as int == spec_background_fill_code(self),
    {
        match self {
            BackgroundFillSetting::Off => 0,
            BackgroundFillSetting::UseBackgroundFillColor => 1,
            BackgroundFillSetting::UseDrawingWindowColor => 2,
        }
    }
}

} // verus!
