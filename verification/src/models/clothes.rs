//! Garment lines, their decoration services, and the enumerations that
//! describe them.

use crate::models::text::text_of;
use crate::table::{Child, Record, Row};
use crate::temporal::Timestamp;
use vstd::prelude::*;

verus! {

/// The kind of garment.
#[derive(Debug, Clone, Copy, PartialEq, Eq, Structural)]
pub enum ClothingType {
    CollaredTshirts,
    TshirtsWithoutCollar,
    UniformShirts,
    Uniforms,
    UniformPants,
    Bags,
    Aprons,
    ClothVests,
    ReflectiveVests,
    ThickCaps,
    SimpleCaps,
    Towels,
    Sheets,
    ApronsKitchen,
    /// A garment that the line names itself, in its custom type.
    Other,
}

impl ClothingType {
    /// The text that stands for the variant in a record.
    pub open spec fn label(self) -> Seq<char> {
        match self {
            ClothingType::CollaredTshirts => "collared_tshirts"@,
            ClothingType::TshirtsWithoutCollar => "tshirts_without_collar"@,
            ClothingType::UniformShirts => "uniform_shirts"@,
            ClothingType::Uniforms => "uniforms"@,
            ClothingType::UniformPants => "uniform_pants"@,
            ClothingType::Bags => "bags"@,
            ClothingType::Aprons => "aprons"@,
            ClothingType::ClothVests => "cloth_vests"@,
            ClothingType::ReflectiveVests => "reflective_vests"@,
            ClothingType::ThickCaps => "thick_caps"@,
            ClothingType::SimpleCaps => "simple_caps"@,
            ClothingType::Towels => "towels"@,
            ClothingType::Sheets => "sheets"@,
            ClothingType::ApronsKitchen => "aprons_kitchen"@,
            ClothingType::Other => "other"@,
        }
    }

    /// The variant that `text` stands for, if it stands for one.
    pub open spec fn named(text: Seq<char>) -> Option<ClothingType> {
        if text == "collared_tshirts"@ {
            Some(ClothingType::CollaredTshirts)
        } else if text == "tshirts_without_collar"@ {
            Some(ClothingType::TshirtsWithoutCollar)
        } else if text == "uniform_shirts"@ {
            Some(ClothingType::UniformShirts)
        } else if text == "uniforms"@ {
            Some(ClothingType::Uniforms)
        } else if text == "uniform_pants"@ {
            Some(ClothingType::UniformPants)
        } else if text == "bags"@ {
            Some(ClothingType::Bags)
        } else if text == "aprons"@ {
            Some(ClothingType::Aprons)
        } else if text == "cloth_vests"@ {
            Some(ClothingType::ClothVests)
        } else if text == "reflective_vests"@ {
            Some(ClothingType::ReflectiveVests)
        } else if text == "thick_caps"@ {
            Some(ClothingType::ThickCaps)
        } else if text == "simple_caps"@ {
            Some(ClothingType::SimpleCaps)
        } else if text == "towels"@ {
            Some(ClothingType::Towels)
        } else if text == "sheets"@ {
            Some(ClothingType::Sheets)
        } else if text == "aprons_kitchen"@ {
            Some(ClothingType::ApronsKitchen)
        } else if text == "other"@ {
            Some(ClothingType::Other)
        } else {
            None
        }
    }

    pub fn to_label(&self) -> (text: String)
        ensures
            text@ == self.label(),
    {
        match self {
            ClothingType::CollaredTshirts => "collared_tshirts".to_owned(),
            ClothingType::TshirtsWithoutCollar => "tshirts_without_collar".to_owned(),
            ClothingType::UniformShirts => "uniform_shirts".to_owned(),
            ClothingType::Uniforms => "uniforms".to_owned(),
            ClothingType::UniformPants => "uniform_pants".to_owned(),
            ClothingType::Bags => "bags".to_owned(),
            ClothingType::Aprons => "aprons".to_owned(),
            ClothingType::ClothVests => "cloth_vests".to_owned(),
            ClothingType::ReflectiveVests => "reflective_vests".to_owned(),
            ClothingType::ThickCaps => "thick_caps".to_owned(),
            ClothingType::SimpleCaps => "simple_caps".to_owned(),
            ClothingType::Towels => "towels".to_owned(),
            ClothingType::Sheets => "sheets".to_owned(),
            ClothingType::ApronsKitchen => "aprons_kitchen".to_owned(),
            ClothingType::Other => "other".to_owned(),
        }
    }

    pub fn from_label(text: &String) -> (found: Option<ClothingType>)
        ensures
            found == ClothingType::named(text@),
    {
        if *text == "collared_tshirts".to_owned() {
            Some(ClothingType::CollaredTshirts)
        } else if *text == "tshirts_without_collar".to_owned() {
            Some(ClothingType::TshirtsWithoutCollar)
        } else if *text == "uniform_shirts".to_owned() {
            Some(ClothingType::UniformShirts)
        } else if *text == "uniforms".to_owned() {
            Some(ClothingType::Uniforms)
        } else if *text == "uniform_pants".to_owned() {
            Some(ClothingType::UniformPants)
        } else if *text == "bags".to_owned() {
            Some(ClothingType::Bags)
        } else if *text == "aprons".to_owned() {
            Some(ClothingType::Aprons)
        } else if *text == "cloth_vests".to_owned() {
            Some(ClothingType::ClothVests)
        } else if *text == "reflective_vests".to_owned() {
            Some(ClothingType::ReflectiveVests)
        } else if *text == "thick_caps".to_owned() {
            Some(ClothingType::ThickCaps)
        } else if *text == "simple_caps".to_owned() {
            Some(ClothingType::SimpleCaps)
        } else if *text == "towels".to_owned() {
            Some(ClothingType::Towels)
        } else if *text == "sheets".to_owned() {
            Some(ClothingType::Sheets)
        } else if *text == "aprons_kitchen".to_owned() {
            Some(ClothingType::ApronsKitchen)
        } else if *text == "other".to_owned() {
            Some(ClothingType::Other)
        } else {
            None
        }
    }

    /// Each variant is the one that its own label stands for.
    pub proof fn lemma_label_names_variant(self)
        ensures
            ClothingType::named(self.label()) == Some(self),
    {
        reveal_strlit("collared_tshirts");
        reveal_strlit("tshirts_without_collar");
        reveal_strlit("uniform_shirts");
        reveal_strlit("uniforms");
        reveal_strlit("uniform_pants");
        reveal_strlit("bags");
        reveal_strlit("aprons");
        reveal_strlit("cloth_vests");
        reveal_strlit("reflective_vests");
        reveal_strlit("thick_caps");
        reveal_strlit("simple_caps");
        reveal_strlit("towels");
        reveal_strlit("sheets");
        reveal_strlit("aprons_kitchen");
        reveal_strlit("other");
        assert("collared_tshirts"@.len() == 16);
        assert("tshirts_without_collar"@.len() == 22);
        assert("uniform_shirts"@.len() == 14);
        assert("uniforms"@.len() == 8);
        assert("uniform_pants"@.len() == 13);
        assert("bags"@.len() == 4);
        assert("aprons"@.len() == 6);
        assert("cloth_vests"@.len() == 11);
        assert("reflective_vests"@.len() == 16);
        assert("thick_caps"@.len() == 10);
        assert("simple_caps"@.len() == 11);
        assert("towels"@.len() == 6);
        assert("sheets"@.len() == 6);
        assert("aprons_kitchen"@.len() == 14);
        assert("other"@.len() == 5);
        assert("collared_tshirts"@[0] != "reflective_vests"@[0]);
        assert("cloth_vests"@[0] != "simple_caps"@[0]);
        assert("aprons"@[0] != "towels"@[0]);
        assert("aprons"@[0] != "sheets"@[0]);
        assert("towels"@[0] != "sheets"@[0]);
        assert("uniform_shirts"@[0] != "aprons_kitchen"@[0]);
    }

    /// A text stands for a variant only if it is that variant's label.
    pub proof fn lemma_named_has_label(text: Seq<char>)
        ensures
            ClothingType::named(text) matches Some(v) ==> v.label() == text,
    {
    }
}

impl Default for ClothingType {
    fn default() -> (r: ClothingType)
        ensures
            r == ClothingType::CollaredTshirts,
    {
        ClothingType::CollaredTshirts
    }
}

/// The kind of decoration.
#[derive(Debug, Clone, Copy, PartialEq, Eq, Structural)]
pub enum ServiceType {
    Embroidery,
    Stamping,
    Dtf,
    Transfer,
}

impl ServiceType {
    /// The text that stands for the variant in a record.
    pub open spec fn label(self) -> Seq<char> {
        match self {
            ServiceType::Embroidery => "embroidery"@,
            ServiceType::Stamping => "stamping"@,
            ServiceType::Dtf => "dtf"@,
            ServiceType::Transfer => "transfer"@,
        }
    }

    /// The variant that `text` stands for, if it stands for one.
    pub open spec fn named(text: Seq<char>) -> Option<ServiceType> {
        if text == "embroidery"@ {
            Some(ServiceType::Embroidery)
        } else if text == "stamping"@ {
            Some(ServiceType::Stamping)
        } else if text == "dtf"@ {
            Some(ServiceType::Dtf)
        } else if text == "transfer"@ {
            Some(ServiceType::Transfer)
        } else {
            None
        }
    }

    pub fn to_label(&self) -> (text: String)
        ensures
            text@ == self.label(),
    {
        match self {
            ServiceType::Embroidery => "embroidery".to_owned(),
            ServiceType::Stamping => "stamping".to_owned(),
            ServiceType::Dtf => "dtf".to_owned(),
            ServiceType::Transfer => "transfer".to_owned(),
        }
    }

    pub fn from_label(text: &String) -> (found: Option<ServiceType>)
        ensures
            found == ServiceType::named(text@),
    {
        if *text == "embroidery".to_owned() {
            Some(ServiceType::Embroidery)
        } else if *text == "stamping".to_owned() {
            Some(ServiceType::Stamping)
        } else if *text == "dtf".to_owned() {
            Some(ServiceType::Dtf)
        } else if *text == "transfer".to_owned() {
            Some(ServiceType::Transfer)
        } else {
            None
        }
    }

    /// Each variant is the one that its own label stands for.
    pub proof fn lemma_label_names_variant(self)
        ensures
            ServiceType::named(self.label()) == Some(self),
    {
        reveal_strlit("embroidery");
        reveal_strlit("stamping");
        reveal_strlit("dtf");
        reveal_strlit("transfer");
        assert("embroidery"@.len() == 10);
        assert("stamping"@.len() == 8);
        assert("dtf"@.len() == 3);
        assert("transfer"@.len() == 8);
        assert("stamping"@[0] != "transfer"@[0]);
    }

    /// A text stands for a variant only if it is that variant's label.
    pub proof fn lemma_named_has_label(text: Seq<char>)
        ensures
            ServiceType::named(text) matches Some(v) ==> v.label() == text,
    {
    }
}

/// Where on the garment a decoration goes.
#[derive(Debug, Clone, Copy, PartialEq, Eq, Structural)]
pub enum ServiceLocation {
    FrontRight,
    FrontLeft,
    Back,
    SleeveLeft,
    SleeveRight,
    CenterFront,
    CenterBack,
    LeftSide,
    RightSide,
    Top,
    Bottom,
    Custom,
}

impl ServiceLocation {
    /// The text that stands for the variant in a record.
    pub open spec fn label(self) -> Seq<char> {
        match self {
            ServiceLocation::FrontRight => "front_right"@,
            ServiceLocation::FrontLeft => "front_left"@,
            ServiceLocation::Back => "back"@,
            ServiceLocation::SleeveLeft => "sleeve_left"@,
            ServiceLocation::SleeveRight => "sleeve_right"@,
            ServiceLocation::CenterFront => "center_front"@,
            ServiceLocation::CenterBack => "center_back"@,
            ServiceLocation::LeftSide => "left_side"@,
            ServiceLocation::RightSide => "right_side"@,
            ServiceLocation::Top => "top"@,
            ServiceLocation::Bottom => "bottom"@,
            ServiceLocation::Custom => "custom"@,
        }
    }

    /// The variant that `text` stands for, if it stands for one.
    pub open spec fn named(text: Seq<char>) -> Option<ServiceLocation> {
        if text == "front_right"@ {
            Some(ServiceLocation::FrontRight)
        } else if text == "front_left"@ {
            Some(ServiceLocation::FrontLeft)
        } else if text == "back"@ {
            Some(ServiceLocation::Back)
        } else if text == "sleeve_left"@ {
            Some(ServiceLocation::SleeveLeft)
        } else if text == "sleeve_right"@ {
            Some(ServiceLocation::SleeveRight)
        } else if text == "center_front"@ {
            Some(ServiceLocation::CenterFront)
        } else if text == "center_back"@ {
            Some(ServiceLocation::CenterBack)
        } else if text == "left_side"@ {
            Some(ServiceLocation::LeftSide)
        } else if text == "right_side"@ {
            Some(ServiceLocation::RightSide)
        } else if text == "top"@ {
            Some(ServiceLocation::Top)
        } else if text == "bottom"@ {
            Some(ServiceLocation::Bottom)
        } else if text == "custom"@ {
            Some(ServiceLocation::Custom)
        } else {
            None
        }
    }

    pub fn to_label(&self) -> (text: String)
        ensures
            text@ == self.label(),
    {
        match self {
            ServiceLocation::FrontRight => "front_right".to_owned(),
            ServiceLocation::FrontLeft => "front_left".to_owned(),
            ServiceLocation::Back => "back".to_owned(),
            ServiceLocation::SleeveLeft => "sleeve_left".to_owned(),
            ServiceLocation::SleeveRight => "sleeve_right".to_owned(),
            ServiceLocation::CenterFront => "center_front".to_owned(),
            ServiceLocation::CenterBack => "center_back".to_owned(),
            ServiceLocation::LeftSide => "left_side".to_owned(),
            ServiceLocation::RightSide => "right_side".to_owned(),
            ServiceLocation::Top => "top".to_owned(),
            ServiceLocation::Bottom => "bottom".to_owned(),
            ServiceLocation::Custom => "custom".to_owned(),
        }
    }

    pub fn from_label(text: &String) -> (found: Option<ServiceLocation>)
        ensures
            found == ServiceLocation::named(text@),
    {
        if *text == "front_right".to_owned() {
            Some(ServiceLocation::FrontRight)
        } else if *text == "front_left".to_owned() {
            Some(ServiceLocation::FrontLeft)
        } else if *text == "back".to_owned() {
            Some(ServiceLocation::Back)
        } else if *text == "sleeve_left".to_owned() {
            Some(ServiceLocation::SleeveLeft)
        } else if *text == "sleeve_right".to_owned() {
            Some(ServiceLocation::SleeveRight)
        } else if *text == "center_front".to_owned() {
            Some(ServiceLocation::CenterFront)
        } else if *text == "center_back".to_owned() {
            Some(ServiceLocation::CenterBack)
        } else if *text == "left_side".to_owned() {
            Some(ServiceLocation::LeftSide)
        } else if *text == "right_side".to_owned() {
            Some(ServiceLocation::RightSide)
        } else if *text == "top".to_owned() {
            Some(ServiceLocation::Top)
        } else if *text == "bottom".to_owned() {
            Some(ServiceLocation::Bottom)
        } else if *text == "custom".to_owned() {
            Some(ServiceLocation::Custom)
        } else {
            None
        }
    }

    /// Each variant is the one that its own label stands for.
    pub proof fn lemma_label_names_variant(self)
        ensures
            ServiceLocation::named(self.label()) == Some(self),
    {
        reveal_strlit("front_right");
        reveal_strlit("front_left");
        reveal_strlit("back");
        reveal_strlit("sleeve_left");
        reveal_strlit("sleeve_right");
        reveal_strlit("center_front");
        reveal_strlit("center_back");
        reveal_strlit("left_side");
        reveal_strlit("right_side");
        reveal_strlit("top");
        reveal_strlit("bottom");
        reveal_strlit("custom");
        assert("front_right"@.len() == 11);
        assert("front_left"@.len() == 10);
        assert("back"@.len() == 4);
        assert("sleeve_left"@.len() == 11);
        assert("sleeve_right"@.len() == 12);
        assert("center_front"@.len() == 12);
        assert("center_back"@.len() == 11);
        assert("left_side"@.len() == 9);
        assert("right_side"@.len() == 10);
        assert("top"@.len() == 3);
        assert("bottom"@.len() == 6);
        assert("custom"@.len() == 6);
        assert("front_right"@[0] != "sleeve_left"@[0]);
        assert("sleeve_right"@[0] != "center_front"@[0]);
        assert("front_right"@[0] != "center_back"@[0]);
        assert("sleeve_left"@[0] != "center_back"@[0]);
        assert("front_left"@[0] != "right_side"@[0]);
        assert("bottom"@[0] != "custom"@[0]);
    }

    /// A text stands for a variant only if it is that variant's label.
    pub proof fn lemma_named_has_label(text: Seq<char>)
        ensures
            ServiceLocation::named(text) matches Some(v) ==> v.label() == text,
    {
    }
}

/// A garment size.
#[derive(Debug, Clone, Copy, PartialEq, Eq, Structural, Hash)]
pub enum ClothingSize {
    S,
    M,
    L,
    XL,
    XXL,
    XXXL,
}

impl ClothingSize {
    /// The text that stands for the variant in a record.
    pub open spec fn label(self) -> Seq<char> {
        match self {
            ClothingSize::S => "S"@,
            ClothingSize::M => "M"@,
            ClothingSize::L => "L"@,
            ClothingSize::XL => "XL"@,
            ClothingSize::XXL => "XXL"@,
            ClothingSize::XXXL => "XXXL"@,
        }
    }

    /// The variant that `text` stands for, if it stands for one.
    pub open spec fn named(text: Seq<char>) -> Option<ClothingSize> {
        if text == "S"@ {
            Some(ClothingSize::S)
        } else if text == "M"@ {
            Some(ClothingSize::M)
        } else if text == "L"@ {
            Some(ClothingSize::L)
        } else if text == "XL"@ {
            Some(ClothingSize::XL)
        } else if text == "XXL"@ {
            Some(ClothingSize::XXL)
        } else if text == "XXXL"@ {
            Some(ClothingSize::XXXL)
        } else {
            None
        }
    }

    pub fn to_label(&self) -> (text: String)
        ensures
            text@ == self.label(),
    {
        match self {
            ClothingSize::S => "S".to_owned(),
            ClothingSize::M => "M".to_owned(),
            ClothingSize::L => "L".to_owned(),
            ClothingSize::XL => "XL".to_owned(),
            ClothingSize::XXL => "XXL".to_owned(),
            ClothingSize::XXXL => "XXXL".to_owned(),
        }
    }

    pub fn from_label(text: &String) -> (found: Option<ClothingSize>)
        ensures
            found == ClothingSize::named(text@),
    {
        if *text == "S".to_owned() {
            Some(ClothingSize::S)
        } else if *text == "M".to_owned() {
            Some(ClothingSize::M)
        } else if *text == "L".to_owned() {
            Some(ClothingSize::L)
        } else if *text == "XL".to_owned() {
            Some(ClothingSize::XL)
        } else if *text == "XXL".to_owned() {
            Some(ClothingSize::XXL)
        } else if *text == "XXXL".to_owned() {
            Some(ClothingSize::XXXL)
        } else {
            None
        }
    }

    /// Each variant is the one that its own label stands for.
    pub proof fn lemma_label_names_variant(self)
        ensures
            ClothingSize::named(self.label()) == Some(self),
    {
        reveal_strlit("S");
        reveal_strlit("M");
        reveal_strlit("L");
        reveal_strlit("XL");
        reveal_strlit("XXL");
        reveal_strlit("XXXL");
        assert("S"@.len() == 1);
        assert("M"@.len() == 1);
        assert("L"@.len() == 1);
        assert("XL"@.len() == 2);
        assert("XXL"@.len() == 3);
        assert("XXXL"@.len() == 4);
        assert("S"@[0] != "M"@[0]);
        assert("S"@[0] != "L"@[0]);
        assert("M"@[0] != "L"@[0]);
    }

    /// A text stands for a variant only if it is that variant's label.
    pub proof fn lemma_named_has_label(text: Seq<char>)
        ensures
            ClothingSize::named(text) matches Some(v) ==> v.label() == text,
    {
    }
}

/// The quantity ordered of each size; a size without an entry is not part
/// of the line.
#[derive(Debug, Clone, Copy, PartialEq, Eq, Structural)]
pub struct SizesMap {
    pub s: Option<u32>,
    pub m: Option<u32>,
    pub l: Option<u32>,
    pub xl: Option<u32>,
    pub xxl: Option<u32>,
    pub xxxl: Option<u32>,
}

/// The quantity of an entry, none where there is no entry.
pub open spec fn quantity(entry: Option<u32>) -> int {
    match entry {
        Some(n) => n as int,
        None => 0,
    }
}

impl SizesMap {
    /// The map without entries.
    pub open spec fn empty() -> SizesMap {
        SizesMap { s: None, m: None, l: None, xl: None, xxl: None, xxxl: None }
    }

    /// The entry of a size.
    pub open spec fn entry(self, size: ClothingSize) -> Option<u32> {
        match size {
            ClothingSize::S => self.s,
            ClothingSize::M => self.m,
            ClothingSize::L => self.l,
            ClothingSize::XL => self.xl,
            ClothingSize::XXL => self.xxl,
            ClothingSize::XXXL => self.xxxl,
        }
    }

    /// The map with the entry of `size` set to `count`.
    pub open spec fn with(self, size: ClothingSize, count: u32) -> SizesMap {
        match size {
            ClothingSize::S => SizesMap { s: Some(count), ..self },
            ClothingSize::M => SizesMap { m: Some(count), ..self },
            ClothingSize::L => SizesMap { l: Some(count), ..self },
            ClothingSize::XL => SizesMap { xl: Some(count), ..self },
            ClothingSize::XXL => SizesMap { xxl: Some(count), ..self },
            ClothingSize::XXXL => SizesMap { xxxl: Some(count), ..self },
        }
    }

    /// The pieces over all sizes.
    pub open spec fn total(self) -> int {
        quantity(self.s) + quantity(self.m) + quantity(self.l) + quantity(self.xl) + quantity(
            self.xxl,
        ) + quantity(self.xxxl)
    }

    pub fn new() -> (sizes: SizesMap)
        ensures
            sizes == SizesMap::empty(),
    {
        SizesMap { s: None, m: None, l: None, xl: None, xxl: None, xxxl: None }
    }

    pub fn get(&self, size: ClothingSize) -> (count: Option<u32>)
        ensures
            count == self.entry(size),
    {
        match size {
            ClothingSize::S => self.s,
            ClothingSize::M => self.m,
            ClothingSize::L => self.l,
            ClothingSize::XL => self.xl,
            ClothingSize::XXL => self.xxl,
            ClothingSize::XXXL => self.xxxl,
        }
    }

    /// Sets the entry of `size`; what was there before is returned.
    pub fn insert(&mut self, size: ClothingSize, count: u32) -> (before: Option<u32>)
        ensures
            *final(self) == old(self).with(size, count),
            before == old(self).entry(size),
    {
        let before = self.get(size);
        match size {
            ClothingSize::S => self.s = Some(count),
            ClothingSize::M => self.m = Some(count),
            ClothingSize::L => self.l = Some(count),
            ClothingSize::XL => self.xl = Some(count),
            ClothingSize::XXL => self.xxl = Some(count),
            ClothingSize::XXXL => self.xxxl = Some(count),
        }
        before
    }
}


/// A garment line of an order.
#[derive(Debug, PartialEq, Eq)]
pub struct Clothes {
    pub id: String,
    pub order_id: String,
    /// The label of a [`ClothingType`].
    pub clothing_type: String,
    /// Names the garment where the type is `other`.
    pub custom_type: Option<String>,
    pub unit_price: i64,
    /// The quantity per size, encoded as a JSON object.
    pub sizes: String,
    pub color: String,
    /// The sum of the quantities per size, taken when the line was written.
    pub total_quantity: i32,
    pub created_at: Timestamp,
    pub updated_at: Timestamp,
}

/// What a [`Clothes`] holds, with its texts as sequences of characters.
pub struct ClothesView {
    pub id: Seq<char>,
    pub order_id: Seq<char>,
    pub clothing_type: Seq<char>,
    pub custom_type: Option<Seq<char>>,
    pub unit_price: i64,
    pub sizes: Seq<char>,
    pub color: Seq<char>,
    pub total_quantity: i32,
    pub created_at: Timestamp,
    pub updated_at: Timestamp,
}

impl View for Clothes {
    type V = ClothesView;

    open spec fn view(&self) -> ClothesView {
        ClothesView {
            id: self.id@,
            order_id: self.order_id@,
            clothing_type: self.clothing_type@,
            custom_type: text_of(self.custom_type),
            unit_price: self.unit_price,
            sizes: self.sizes@,
            color: self.color@,
            total_quantity: self.total_quantity,
            created_at: self.created_at,
            updated_at: self.updated_at,
        }
    }
}

impl Row for Clothes {
    open spec fn rank(&self) -> i128 {
        self.created_at.unix_nanos
    }

    fn rank_value(&self) -> (rank: i128) {
        self.created_at.unix_nanos
    }

    fn duplicate(&self) -> (r: Clothes) {
        Clothes {
            id: self.id.clone(),
            order_id: self.order_id.clone(),
            clothing_type: self.clothing_type.clone(),
            custom_type: self.custom_type.clone(),
            unit_price: self.unit_price,
            sizes: self.sizes.clone(),
            color: self.color.clone(),
            total_quantity: self.total_quantity,
            created_at: self.created_at,
            updated_at: self.updated_at,
        }
    }}

impl Record for Clothes {
    open spec fn key(&self) -> Seq<char> {
        self.id@
    }

    fn id(&self) -> (k: &String) {
        &self.id
    }
}

impl Child for Clothes {
    open spec fn parent(&self) -> Seq<char> {
        self.order_id@
    }

    fn parent_id(&self) -> (k: &String) {
        &self.order_id
    }
}

impl Clone for Clothes {
    fn clone(&self) -> (r: Clothes)
        ensures
            r == *self,
    {
        self.duplicate()
    }
}

/// A decoration applied to a garment line; its price adds to the price of
/// each piece.
#[derive(Debug, PartialEq, Eq)]
pub struct ClothingService {
    pub id: String,
    pub clothes_id: String,
    /// The label of a [`ServiceType`].
    pub service_type: String,
    /// The label of a [`ServiceLocation`].
    pub location: String,
    pub description: Option<String>,
    pub unit_price: i64,
    pub created_at: Timestamp,
    pub updated_at: Timestamp,
}

/// What a [`ClothingService`] holds, with its texts as sequences of characters.
pub struct ClothingServiceView {
    pub id: Seq<char>,
    pub clothes_id: Seq<char>,
    pub service_type: Seq<char>,
    pub location: Seq<char>,
    pub description: Option<Seq<char>>,
    pub unit_price: i64,
    pub created_at: Timestamp,
    pub updated_at: Timestamp,
}

impl View for ClothingService {
    type V = ClothingServiceView;

    open spec fn view(&self) -> ClothingServiceView {
        ClothingServiceView {
            id: self.id@,
            clothes_id: self.clothes_id@,
            service_type: self.service_type@,
            location: self.location@,
            description: text_of(self.description),
            unit_price: self.unit_price,
            created_at: self.created_at,
            updated_at: self.updated_at,
        }
    }
}

impl Row for ClothingService {
    open spec fn rank(&self) -> i128 {
        self.created_at.unix_nanos
    }

    fn rank_value(&self) -> (rank: i128) {
        self.created_at.unix_nanos
    }

    fn duplicate(&self) -> (r: ClothingService) {
        ClothingService {
            id: self.id.clone(),
            clothes_id: self.clothes_id.clone(),
            service_type: self.service_type.clone(),
            location: self.location.clone(),
            description: self.description.clone(),
            unit_price: self.unit_price,
            created_at: self.created_at,
            updated_at: self.updated_at,
        }
    }}

impl Record for ClothingService {
    open spec fn key(&self) -> Seq<char> {
        self.id@
    }

    fn id(&self) -> (k: &String) {
        &self.id
    }
}

impl Child for ClothingService {
    open spec fn parent(&self) -> Seq<char> {
        self.clothes_id@
    }

    fn parent_id(&self) -> (k: &String) {
        &self.clothes_id
    }
}

impl Clone for ClothingService {
    fn clone(&self) -> (r: ClothingService)
        ensures
            r == *self,
    {
        self.duplicate()
    }
}

} // verus!
