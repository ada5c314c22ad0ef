//! The settings a page that demangles symbols offers: the demangling style,
//! and where the label of a setting stands.
use vstd::prelude::*;

use crate::demangle_config::DemangleConfig;

verus! {

/// How symbols are demangled: with the improvements of this library, or
/// the way c++filt does it.
#[derive(Debug, Copy, Clone, Hash, PartialEq, Eq, PartialOrd, Ord, Structural)]
pub enum DemanglingStyle {
    G2dem,
    Cfilt,
}

impl Default for DemanglingStyle {
    fn default() -> (s: Self)
        ensures
            s == DemanglingStyle::G2dem,
    {
        DemanglingStyle::G2dem
    }
}

/// The identifier of a demangling style, as a form or the storage holds
/// it.
pub open spec fn style_id(s: DemanglingStyle) -> Seq<char> {
    match s {
        DemanglingStyle::G2dem => "g2dem"@,
        DemanglingStyle::Cfilt => "c++filt"@,
    }
}

/// The demangling style with identifier `id`; the default one for any
/// other text.
pub open spec fn style_from_id(id: Seq<char>) -> DemanglingStyle {
    if id == "g2dem"@ {
        DemanglingStyle::G2dem
    } else if id == "c++filt"@ {
        DemanglingStyle::Cfilt
    } else {
        DemanglingStyle::G2dem
    }
}

/// The configuration a demangling style stands for.
pub open spec fn style_config(s: DemanglingStyle) -> DemangleConfig {
    match s {
        DemanglingStyle::G2dem => DemangleConfig::no_cfilt_mimics(),
        DemanglingStyle::Cfilt => DemangleConfig::cfilt(),
    }
}

/// Whether `a` and `b` hold the same characters.
fn str_eq(a: &str, b: &str) -> (r: bool)
    ensures
        r == (a@ == b@),
{
    let n = a.unicode_len();
    if n != b.unicode_len() {
        return false;
    }
    let mut i: usize = 0;
    while i < n
        invariant
            n == a@.len(),
            n == b@.len(),
            i <= n,
            forall|k: int| 0 <= k < i ==> a@[k] == b@[k],
        decreases n - i,
    {
        if a.get_char(i) != b.get_char(i) {
            return false;
        }
        i = i + 1;
    }
    assert(a@ =~= b@);
    true
}

impl DemanglingStyle {
    /// The key under which the chosen style is stored.
    pub fn storage_key() -> (k: &'static str)
        ensures
            k@ == "decompollaborate.disasmdis-web.state.endian"@,
    {
        "decompollaborate.disasmdis-web.state.endian"
    }

    /// The style with identifier `id`; the default style for an unknown
    /// identifier.
    pub fn from_id(id: &str) -> (s: Self)
        ensures
            s == style_from_id(id@),
    {
        if str_eq(id, "g2dem") {
            DemanglingStyle::G2dem
        } else if str_eq(id, "c++filt") {
            DemanglingStyle::Cfilt
        } else {
            DemanglingStyle::default()
        }
    }

    /// The identifier of this style.
    pub fn id(&self) -> (r: &'static str)
        ensures
            r@ == style_id(*self),
    {
        match self {
            DemanglingStyle::G2dem => "g2dem",
            DemanglingStyle::Cfilt => "c++filt",
        }
    }

    /// The name of this style, as it is shown.
    pub fn name(&self) -> (r: &'static str)
        ensures
            r@ == style_id(*self),
    {
        match self {
            DemanglingStyle::G2dem => "g2dem",
            DemanglingStyle::Cfilt => "c++filt",
        }
    }

    /// Every style, in the order they are offered.
    pub fn array() -> (v: Vec<DemanglingStyle>)
        ensures
            v@ == seq![DemanglingStyle::G2dem, DemanglingStyle::Cfilt],
    {
        let mut v = Vec::new();
        v.push(DemanglingStyle::G2dem);
        v.push(DemanglingStyle::Cfilt);
        v
    }

    /// The text of the label of the style setting.
    pub fn label_text() -> (r: &'static str)
        ensures
            r@ == "Demangling style:"@,
    {
        "Demangling style:"
    }

    /// The identifier of the style setting's dropdown.
    pub fn dropdown_id() -> (r: &'static str)
        ensures
            r@ == "demangling_style"@,
    {
        "demangling_style"
    }

    /// The help text shown over the style setting.
    pub fn tooltip_text() -> (r: Option<&'static str>)
        ensures
            r matches Some(t) && t@ == "g2dem provides an slightly improved experience over the c++filt style, while the latter tries to mimic the original c++filt behavior."@,
    {
        Some("g2dem provides an slightly improved experience over the c++filt style, while the latter tries to mimic the original c++filt behavior.")
    }

    /// The configuration symbols are demangled with in this style.
    pub fn demangle_config(&self) -> (c: DemangleConfig)
        ensures
            c == style_config(*self),
    {
        match self {
            DemanglingStyle::G2dem => DemangleConfig::new_no_cfilt_mimics(),
            DemanglingStyle::Cfilt => DemangleConfig::new_mimic_cfilt(),
        }
    }
}

/// Reading back the identifier of a style gives that style.
pub proof fn lemma_style_id_round_trip(s: DemanglingStyle)
    ensures
        style_from_id(style_id(s)) == s,
{
    reveal_strlit("g2dem");
    reveal_strlit("c++filt");
    assert("c++filt"@ != "g2dem"@) by {
        assert("c++filt"@[0] != "g2dem"@[0]);
    }
}

/// Where the label of a setting stands: above the setting, or to its
/// left.
#[derive(Debug, Copy, Clone, Hash, PartialEq, Eq, PartialOrd, Ord, Structural)]
pub enum LabelPosition {
    Upper,
    Left,
}

impl Default for LabelPosition {
    fn default() -> (p: Self)
        ensures
            p == LabelPosition::Upper,
    {
        LabelPosition::Upper
    }
}

} // verus!
