//! A three-way translation table between two system-specific enumerations
//! and a common one, convertible in both directions and to and from display
//! strings.

use vstd::prelude::*;
use vstd::string::StringExecFns;

verus! {

/// The shared (common) data model.
#[derive(Clone, Copy, PartialEq, Eq, Structural, Debug)]
pub enum CommonSystem {
    First,
    Second,
    Third,
}

/// The legacy system's data model.
#[derive(Clone, Copy, PartialEq, Eq, Structural, Debug)]
pub enum LegacySystem {
    LegacyFirst,
    LegacySecond,
    LegacyThird,
}

/// The modern system's data model.
#[derive(Clone, Copy, PartialEq, Eq, Structural, Debug)]
pub enum ModernSystem {
    ModernFirst,
    ModernSecond,
    ModernThird,
}

/// The display string of a common value.
pub open spec fn common_display(v: CommonSystem) -> Seq<char> {
    match v {
        CommonSystem::First => "commonFirst"@,
        CommonSystem::Second => "commonSecond"@,
        CommonSystem::Third => "commonThird"@,
    }
}

/// The display string of a legacy value.
pub open spec fn legacy_display(v: LegacySystem) -> Seq<char> {
    match v {
        LegacySystem::LegacyFirst => "legacyFirst"@,
        LegacySystem::LegacySecond => "legacySecond"@,
        LegacySystem::LegacyThird => "legacyThird"@,
    }
}

/// The display string of a modern value.
pub open spec fn modern_display(v: ModernSystem) -> Seq<char> {
    match v {
        ModernSystem::ModernFirst => "modernFirst"@,
        ModernSystem::ModernSecond => "modernSecond"@,
        ModernSystem::ModernThird => "modernThird"@,
    }
}

/// The common value a legacy value translates to.
pub open spec fn legacy_to_common(v: LegacySystem) -> CommonSystem {
    match v {
        LegacySystem::LegacyFirst => CommonSystem::First,
        LegacySystem::LegacySecond => CommonSystem::Second,
        LegacySystem::LegacyThird => CommonSystem::Third,
    }
}

/// The common value a modern value translates to.
pub open spec fn modern_to_common(v: ModernSystem) -> CommonSystem {
    match v {
        ModernSystem::ModernFirst => CommonSystem::First,
        ModernSystem::ModernSecond => CommonSystem::Second,
        ModernSystem::ModernThird => CommonSystem::Third,
    }
}

/// The legacy value a common value translates back to.
pub open spec fn common_to_legacy(v: CommonSystem) -> LegacySystem {
    match v {
        CommonSystem::First => LegacySystem::LegacyFirst,
        CommonSystem::Second => LegacySystem::LegacySecond,
        CommonSystem::Third => LegacySystem::LegacyThird,
    }
}

/// The modern value a common value translates back to.
pub open spec fn common_to_modern(v: CommonSystem) -> ModernSystem {
    match v {
        CommonSystem::First => ModernSystem::ModernFirst,
        CommonSystem::Second => ModernSystem::ModernSecond,
        CommonSystem::Third => ModernSystem::ModernThird,
    }
}

/// The common value whose display string is `s`, if any.
pub open spec fn common_from_display(s: Seq<char>) -> Option<CommonSystem> {
    if s == common_display(CommonSystem::First) {
        Some(CommonSystem::First)
    } else if s == common_display(CommonSystem::Second) {
        Some(CommonSystem::Second)
    } else if s == common_display(CommonSystem::Third) {
        Some(CommonSystem::Third)
    } else {
        None
    }
}

/// The legacy value whose display string is `s`, if any.
pub open spec fn legacy_from_display(s: Seq<char>) -> Option<LegacySystem> {
    if s == legacy_display(LegacySystem::LegacyFirst) {
        Some(LegacySystem::LegacyFirst)
    } else if s == legacy_display(LegacySystem::LegacySecond) {
        Some(LegacySystem::LegacySecond)
    } else if s == legacy_display(LegacySystem::LegacyThird) {
        Some(LegacySystem::LegacyThird)
    } else {
        None
    }
}

/// The modern value whose display string is `s`, if any.
pub open spec fn modern_from_display(s: Seq<char>) -> Option<ModernSystem> {
    if s == modern_display(ModernSystem::ModernFirst) {
        Some(ModernSystem::ModernFirst)
    } else if s == modern_display(ModernSystem::ModernSecond) {
        Some(ModernSystem::ModernSecond)
    } else if s == modern_display(ModernSystem::ModernThird) {
        Some(ModernSystem::ModernThird)
    } else {
        None
    }
}

impl CommonSystem {
    /// All variants, in declaration order.
    pub fn variants() -> (r: Vec<CommonSystem>)
        ensures
            r@ == seq![CommonSystem::First, CommonSystem::Second, CommonSystem::Third],
    {
        let mut v: Vec<CommonSystem> = Vec::new();
        v.push(CommonSystem::First);
        v.push(CommonSystem::Second);
        v.push(CommonSystem::Third);
        proof {
            assert(v@ =~= seq![CommonSystem::First, CommonSystem::Second, CommonSystem::Third]);
        }
        v
    }

    /// The tagged name of the variant.
    pub fn name(&self) -> (r: String)
        ensures
            r@ == common_name(*self),
    {
        match self {
            CommonSystem::First => String::from_str("CommonSystem:First"),
            CommonSystem::Second => String::from_str("CommonSystem:Second"),
            CommonSystem::Third => String::from_str("CommonSystem:Third"),
        }
    }

    /// The display string of this value.
    pub fn translate_to_display(&self) -> (r: String)
        ensures
            r@ == common_display(*self),
    {
        match self {
            CommonSystem::First => String::from_str("commonFirst"),
            CommonSystem::Second => String::from_str("commonSecond"),
            CommonSystem::Third => String::from_str("commonThird"),
        }
    }

    /// The value whose display string is `display_val`, if any.
    pub fn translate_from_display(display_val: &String) -> (r: Option<CommonSystem>)
        ensures
            r == common_from_display(display_val@),
    {
        if display_val.eq(&String::from_str("commonFirst")) {
            Some(CommonSystem::First)
        } else if display_val.eq(&String::from_str("commonSecond")) {
            Some(CommonSystem::Second)
        } else if display_val.eq(&String::from_str("commonThird")) {
            Some(CommonSystem::Third)
        } else {
            None
        }
    }
}

/// The tagged name of a common variant.
pub open spec fn common_name(v: CommonSystem) -> Seq<char> {
    match v {
        CommonSystem::First => "CommonSystem:First"@,
        CommonSystem::Second => "CommonSystem:Second"@,
        CommonSystem::Third => "CommonSystem:Third"@,
    }
}

/// The tagged name of a legacy variant.
pub open spec fn legacy_name(v: LegacySystem) -> Seq<char> {
    match v {
        LegacySystem::LegacyFirst => "LegacySystem:LegacyFirst"@,
        LegacySystem::LegacySecond => "LegacySystem:LegacySecond"@,
        LegacySystem::LegacyThird => "LegacySystem:LegacyThird"@,
    }
}

/// The tagged name of a modern variant.
pub open spec fn modern_name(v: ModernSystem) -> Seq<char> {
    match v {
        ModernSystem::ModernFirst => "ModernSystem:ModernFirst"@,
        ModernSystem::ModernSecond => "ModernSystem:ModernSecond"@,
        ModernSystem::ModernThird => "ModernSystem:ModernThird"@,
    }
}

impl LegacySystem {
    /// All variants, in declaration order.
    pub fn variants() -> (r: Vec<LegacySystem>)
        ensures
            r@ == seq![
                LegacySystem::LegacyFirst,
                LegacySystem::LegacySecond,
                LegacySystem::LegacyThird,
            ],
    {
        let mut v: Vec<LegacySystem> = Vec::new();
        v.push(LegacySystem::LegacyFirst);
        v.push(LegacySystem::LegacySecond);
        v.push(LegacySystem::LegacyThird);
        proof {
            assert(v@ =~= seq![
                LegacySystem::LegacyFirst,
                LegacySystem::LegacySecond,
                LegacySystem::LegacyThird,
            ]);
        }
        v
    }

    /// The tagged name of the variant.
    pub fn name(&self) -> (r: String)
        ensures
            r@ == legacy_name(*self),
    {
        match self {
            LegacySystem::LegacyFirst => String::from_str("LegacySystem:LegacyFirst"),
            LegacySystem::LegacySecond => String::from_str("LegacySystem:LegacySecond"),
            LegacySystem::LegacyThird => String::from_str("LegacySystem:LegacyThird"),
        }
    }

    /// The display string of this value.
    pub fn translate_to_display(&self) -> (r: String)
        ensures
            r@ == legacy_display(*self),
    {
        match self {
            LegacySystem::LegacyFirst => String::from_str("legacyFirst"),
            LegacySystem::LegacySecond => String::from_str("legacySecond"),
            LegacySystem::LegacyThird => String::from_str("legacyThird"),
        }
    }

    /// The value whose display string is `display_val`, if any.
    pub fn translate_from_display(display_val: &String) -> (r: Option<LegacySystem>)
        ensures
            r == legacy_from_display(display_val@),
    {
        if display_val.eq(&String::from_str("legacyFirst")) {
            Some(LegacySystem::LegacyFirst)
        } else if display_val.eq(&String::from_str("legacySecond")) {
            Some(LegacySystem::LegacySecond)
        } else if display_val.eq(&String::from_str("legacyThird")) {
            Some(LegacySystem::LegacyThird)
        } else {
            None
        }
    }

    /// The common value this value translates to.
    pub fn translate_to_common_enum(&self) -> (r: CommonSystem)
        ensures
            r == legacy_to_common(*self),
    {
        match self {
            LegacySystem::LegacyFirst => CommonSystem::First,
            LegacySystem::LegacySecond => CommonSystem::Second,
            LegacySystem::LegacyThird => CommonSystem::Third,
        }
    }

    /// The display string of the common value this value translates to.
    pub fn translate_to_common_display(&self) -> (r: String)
        ensures
            r@ == common_display(legacy_to_common(*self)),
    {
        self.translate_to_common_enum().translate_to_display()
    }

    /// The legacy value that translates to `common_enum`; the translation
    /// is a bijection, so there always is exactly one.
    pub fn translate_from_common_enum(common_enum: &CommonSystem) -> (r: Option<LegacySystem>)
        ensures
            r == Some(common_to_legacy(*common_enum)),
            r matches Some(v) && legacy_to_common(v) == *common_enum,
    {
        match common_enum {
            CommonSystem::First => Some(LegacySystem::LegacyFirst),
            CommonSystem::Second => Some(LegacySystem::LegacySecond),
            CommonSystem::Third => Some(LegacySystem::LegacyThird),
        }
    }

    /// The display string of the legacy value that translates to
    /// `common_enum`.
    pub fn translate_from_common_enum_to_display(common_enum: &CommonSystem) -> (r: Option<
        String,
    >)
        ensures
            r matches Some(s) && s@ == legacy_display(common_to_legacy(*common_enum)),
    {
        match Self::translate_from_common_enum(common_enum) {
            Some(v) => Some(v.translate_to_display()),
            None => None,
        }
    }
}

impl ModernSystem {
    /// All variants, in declaration order.
    pub fn variants() -> (r: Vec<ModernSystem>)
        ensures
            r@ == seq![
                ModernSystem::ModernFirst,
                ModernSystem::ModernSecond,
                ModernSystem::ModernThird,
            ],
    {
        let mut v: Vec<ModernSystem> = Vec::new();
        v.push(ModernSystem::ModernFirst);
        v.push(ModernSystem::ModernSecond);
        v.push(ModernSystem::ModernThird);
        proof {
            assert(v@ =~= seq![
                ModernSystem::ModernFirst,
                ModernSystem::ModernSecond,
                ModernSystem::ModernThird,
            ]);
        }
        v
    }

    /// The tagged name of the variant.
    pub fn name(&self) -> (r: String)
        ensures
            r@ == modern_name(*self),
    {
        match self {
            ModernSystem::ModernFirst => String::from_str("ModernSystem:ModernFirst"),
            ModernSystem::ModernSecond => String::from_str("ModernSystem:ModernSecond"),
            ModernSystem::ModernThird => String::from_str("ModernSystem:ModernThird"),
        }
    }

    /// The display string of this value.
    pub fn translate_to_display(&self) -> (r: String)
        ensures
            r@ == modern_display(*self),
    {
        match self {
            ModernSystem::ModernFirst => String::from_str("modernFirst"),
            ModernSystem::ModernSecond => String::from_str("modernSecond"),
            ModernSystem::ModernThird => String::from_str("modernThird"),
        }
    }

    /// The value whose display string is `display_val`, if any.
    pub fn translate_from_display(display_val: &String) -> (r: Option<ModernSystem>)
        ensures
            r == modern_from_display(display_val@),
    {
        if display_val.eq(&String::from_str("modernFirst")) {
            Some(ModernSystem::ModernFirst)
        } else if display_val.eq(&String::from_str("modernSecond")) {
            Some(ModernSystem::ModernSecond)
        } else if display_val.eq(&String::from_str("modernThird")) {
            Some(ModernSystem::ModernThird)
        } else {
            None
        }
    }

    /// The common value this value translates to.
    pub fn translate_to_common_enum(&self) -> (r: CommonSystem)
        ensures
            r == modern_to_common(*self),
    {
        match self {
            ModernSystem::ModernFirst => CommonSystem::First,
            ModernSystem::ModernSecond => CommonSystem::Second,
            ModernSystem::ModernThird => CommonSystem::Third,
        }
    }

    /// The display string of the common value this value translates to.
    pub fn translate_to_common_display(&self) -> (r: String)
        ensures
            r@ == common_display(modern_to_common(*self)),
    {
        self.translate_to_common_enum().translate_to_display()
    }

    /// The modern value that translates to `common_enum`; the translation
    /// is a bijection, so there always is exactly one.
    pub fn translate_from_common_enum(common_enum: &CommonSystem) -> (r: Option<ModernSystem>)
        ensures
            r == Some(common_to_modern(*common_enum)),
            r matches Some(v) && modern_to_common(v) == *common_enum,
    {
        match common_enum {
            CommonSystem::First => Some(ModernSystem::ModernFirst),
            CommonSystem::Second => Some(ModernSystem::ModernSecond),
            CommonSystem::Third => Some(ModernSystem::ModernThird),
        }
    }

    /// The display string of the modern value that translates to
    /// `common_enum`.
    pub fn translate_from_common_enum_to_display(common_enum: &CommonSystem) -> (r: Option<
        String,
    >)
        ensures
            r matches Some(s) && s@ == modern_display(common_to_modern(*common_enum)),
    {
        match Self::translate_from_common_enum(common_enum) {
            Some(v) => Some(v.translate_to_display()),
            None => None,
        }
    }
}

/// Round-trip law for the modern system: translating any modern value to
/// the common model and back yields the same value, and the display of the
/// round-tripped value is the display it started from.
pub proof fn lemma_modern_common_round_trip(v: ModernSystem)
    ensures
        common_to_modern(modern_to_common(v)) == v,
        modern_display(common_to_modern(modern_to_common(v))) == modern_display(v),
{
}

/// Round-trip law for the legacy system: translating any legacy value to
/// the common model and back yields the same value.
pub proof fn lemma_legacy_common_round_trip(v: LegacySystem)
    ensures
        common_to_legacy(legacy_to_common(v)) == v,
{
}

/// Round-trip law for display strings: parsing any modern value's display
/// string yields that value back.
pub proof fn lemma_modern_display_round_trip(v: ModernSystem)
    ensures
        modern_from_display(modern_display(v)) == Some(v),
{
    reveal_strlit("modernFirst");
    reveal_strlit("modernSecond");
    reveal_strlit("modernThird");
    assert("modernFirst"@.len() == 11);
    assert("modernSecond"@.len() == 12);
    assert("modernThird"@.len() == 11);
    assert("modernFirst"@[6] == 'F');
    assert("modernThird"@[6] == 'T');
}

} // verus!
