//! The device adapter: turning a message into one device state update.
//!
//! The device renders scrolling text through one of its named effects and
//! colors it through one of its named palettes; both catalogs are
//! enumerated at runtime and their indices are not stable across firmware
//! versions.  The adapter discovers the right indices by case-insensitive
//! name matching, memoizes them for the process lifetime, and plans a
//! single state update carrying the message text, the chosen color and the
//! resolved selectors.  Sending the update, and fetching the catalogs, is
//! plain HTTP left to the caller.

use vstd::prelude::*;

use crate::color::{effective_color, spec_effective_color};
use crate::numfmt::{spec_decimal, u64_to_string};
use crate::textmatch::{contains_ci, contains_ci_str};

verus! {

/// An effect name that names scrolling text outright.
pub open spec fn effect_is_scroll_text(name: Seq<char>) -> bool {
    contains_ci(name, "scroll"@) && contains_ci(name, "text"@)
}

/// An effect name that at least mentions text.
pub open spec fn effect_is_text(name: Seq<char>) -> bool {
    contains_ci(name, "text"@)
}

/// A palette name that renders the segment's first color.
pub open spec fn palette_is_color1(name: Seq<char>) -> bool {
    contains_ci(name, "primary"@) || contains_ci(name, "color 1"@) || contains_ci(
        name,
        "single"@,
    ) || contains_ci(name, "solid"@)
}

/// The scrolling-text predicate as a value, so that every use names the
/// same function.
pub open spec fn scroll_text_pred() -> spec_fn(Seq<char>) -> bool {
    |n: Seq<char>| effect_is_scroll_text(n)
}

/// The text predicate as a value.
pub open spec fn text_pred() -> spec_fn(Seq<char>) -> bool {
    |n: Seq<char>| effect_is_text(n)
}

/// The color-respecting-palette predicate as a value.
pub open spec fn color1_pred() -> spec_fn(Seq<char>) -> bool {
    |n: Seq<char>| palette_is_color1(n)
}

/// Index of the first name satisfying the predicate, if any.
pub open spec fn first_index_where(names: Seq<Seq<char>>, pred: spec_fn(Seq<char>) -> bool) -> Option<
    int,
>
    decreases names.len(),
{
    if names.len() == 0 {
        None
    } else if pred(names[0]) {
        Some(0)
    } else {
        match first_index_where(names.drop_first(), pred) {
            Some(i) => Some(i + 1),
            None => None,
        }
    }
}

/// The effect index the adapter selects from a catalog: the first name
/// that names scrolling text, else the first that mentions text at all.
pub open spec fn spec_find_text_effect(names: Seq<Seq<char>>) -> Option<int> {
    match first_index_where(names, scroll_text_pred()) {
        Some(i) => Some(i),
        None => first_index_where(names, text_pred()),
    }
}

/// The palette index the adapter selects from a catalog: the first name
/// that promises to render the segment's own color.
pub open spec fn spec_find_color1_palette(names: Seq<Seq<char>>) -> Option<int> {
    first_index_where(names, color1_pred())
}

/// A first match at index `k` pins `first_index_where` down.
proof fn lemma_first_index_found(
    names: Seq<Seq<char>>,
    pred: spec_fn(Seq<char>) -> bool,
    k: int,
)
    requires
        0 <= k < names.len(),
        pred(names[k]),
        forall|j: int| 0 <= j < k ==> !pred(#[trigger] names[j]),
    ensures
        first_index_where(names, pred) == Some(k),
    decreases names.len(),
{
    if k > 0 {
        assert(!pred(names[0]));
        assert(names.drop_first()[k - 1] == names[k]);
        assert forall|j: int| 0 <= j < k - 1 implies !pred(#[trigger] names.drop_first()[j]) by {
            assert(names.drop_first()[j] == names[j + 1]);
        }
        lemma_first_index_found(names.drop_first(), pred, k - 1);
    }
}

/// With no match anywhere, `first_index_where` finds nothing.
proof fn lemma_first_index_none(names: Seq<Seq<char>>, pred: spec_fn(Seq<char>) -> bool)
    requires
        forall|j: int| 0 <= j < names.len() ==> !pred(#[trigger] names[j]),
    ensures
        first_index_where(names, pred) is None,
    decreases names.len(),
{
    if names.len() > 0 {
        assert forall|j: int|
            0 <= j < names.drop_first().len() implies !pred(#[trigger] names.drop_first()[j]) by {
            assert(names.drop_first()[j] == names[j + 1]);
        }
        lemma_first_index_none(names.drop_first(), pred);
    }
}

/// Finds the effect to show scrolling text in a catalog of effect names:
/// the first whose name contains both "scroll" and "text" regardless of
/// case, or failing that the first whose name contains "text".
pub fn find_text_effect_index(effects: &Vec<String>) -> (r: Option<usize>)
    ensures
        ({
            let names = effects@.map_values(|s: String| s@);
            match r {
                Some(i) => spec_find_text_effect(names) == Some(i as int),
                None => spec_find_text_effect(names) is None,
            }
        }),
{
    let ghost names = effects@.map_values(|s: String| s@);
    let mut candidate: Option<usize> = None;
    let mut i: usize = 0;
    while i < effects.len()
        invariant
            i <= effects@.len(),
            names == effects@.map_values(|s: String| s@),
            forall|j: int| 0 <= j < i ==> !effect_is_scroll_text(#[trigger] names[j]),
            match candidate {
                Some(c) => c < i && effect_is_text(names[c as int]) && (forall|j: int|
                    0 <= j < c ==> !effect_is_text(#[trigger] names[j])),
                None => forall|j: int| 0 <= j < i ==> !effect_is_text(#[trigger] names[j]),
            },
        decreases effects@.len() - i,
    {
        let name = &effects[i];
        if contains_ci_str(name.as_str(), "scroll") && contains_ci_str(name.as_str(), "text") {
            proof {
                lemma_first_index_found(names, scroll_text_pred(), i as int);
            }
            return Some(i);
        }
        if candidate.is_none() && contains_ci_str(name.as_str(), "text") {
            candidate = Some(i);
        }
        i += 1;
    }
    proof {
        lemma_first_index_none(names, scroll_text_pred());
    }
    match candidate {
        Some(c) => {
            proof {
                lemma_first_index_found(names, text_pred(), c as int);
            }
            Some(c)
        },
        None => {
            proof {
                lemma_first_index_none(names, text_pred());
            }
            None
        },
    }
}

/// Finds a palette that renders the segment's own color in a catalog of
/// palette names: the first whose name contains "primary", "color 1",
/// "single" or "solid", regardless of case.
pub fn find_color1_palette_index(palettes: &Vec<String>) -> (r: Option<usize>)
    ensures
        ({
            let names = palettes@.map_values(|s: String| s@);
            match r {
                Some(i) => spec_find_color1_palette(names) == Some(i as int),
                None => spec_find_color1_palette(names) is None,
            }
        }),
{
    let ghost names = palettes@.map_values(|s: String| s@);
    let mut i: usize = 0;
    while i < palettes.len()
        invariant
            i <= palettes@.len(),
            names == palettes@.map_values(|s: String| s@),
            forall|j: int| 0 <= j < i ==> !palette_is_color1(#[trigger] names[j]),
        decreases palettes@.len() - i,
    {
        let name = &palettes[i];
        if contains_ci_str(name.as_str(), "primary") || contains_ci_str(name.as_str(), "color 1")
            || contains_ci_str(name.as_str(), "single") || contains_ci_str(
            name.as_str(),
            "solid",
        ) {
            proof {
                lemma_first_index_found(names, color1_pred(), i as int);
            }
            return Some(i);
        }
        i += 1;
    }
    proof {
        lemma_first_index_none(names, color1_pred());
    }
    None
}

/// What `urlencoding::encode` returns for a string: its percent-encoded
/// form, a function of the characters alone.
pub uninterp spec fn url_encoded(s: Seq<char>) -> Seq<char>;

/// Relies on `urlencoding::encode`: percent-encodes every byte except
/// ASCII alphanumerics and `-`, `_`, `.`, `~`; deterministic in its input,
/// and an empty input stays empty.
#[verifier::external_body]
fn encode_text(s: &str) -> (r: String)
    ensures
        r@ == url_encoded(s@),
        s@.len() == 0 ==> r@.len() == 0,
{
    urlencoding::encode(s).into_owned()
}

/// Both optional indices name the same position, one as a machine word
/// and one as a mathematical integer.
pub open spec fn opt_index_matches(r: Option<usize>, s: Option<int>) -> bool {
    match (r, s) {
        (Some(a), Some(b)) => a == b,
        (None, None) => true,
        _ => false,
    }
}

/// The single segment carried by a state update: the message text as the
/// segment name, the color as "Color 1", options forcing the effect to
/// render Color 1 at the largest font, and the resolved selectors.
pub struct SegmentUpdate {
    pub name: String,
    pub color: (u8, u8, u8),
    pub color_mode: u8,
    pub font_size: u8,
    pub palette: Option<usize>,
    pub effect: Option<usize>,
}

/// One device state update: power on, fixed brightness, one segment.
pub struct StateUpdate {
    pub on: bool,
    pub brightness: u8,
    pub segment: SegmentUpdate,
}

/// Everything one `apply` turns into: an optional preset switch issued
/// first, the state update itself, and an optional legacy query-string
/// call for firmware exposing text through a flat parameter.
pub struct UpdatePlan {
    pub preset: Option<i32>,
    pub state: StateUpdate,
    pub legacy_query: Option<String>,
}

/// The device adapter: the configured preset and legacy key, and the
/// memoized effect and palette indices discovered from the catalogs.
pub struct DeviceAdapter {
    pub preset_id: Option<i32>,
    pub text_param_key: Option<String>,
    pub effect_index: Option<usize>,
    pub palette_index: Option<usize>,
}

impl DeviceAdapter {
    /// An adapter for the given configuration, with nothing discovered
    /// yet.
    pub fn new(preset_id: Option<i32>, text_param_key: Option<String>) -> (a: DeviceAdapter)
        ensures
            a.preset_id == preset_id,
            a.text_param_key == text_param_key,
            a.effect_index is None,
            a.palette_index is None,
    {
        DeviceAdapter { preset_id, text_param_key, effect_index: None, palette_index: None }
    }

    /// Whether planning would consult the effect catalog: no preset is
    /// configured and no effect index has been discovered yet.
    pub fn needs_effect_catalog(&self) -> (r: bool)
        ensures
            r == (self.preset_id is None && self.effect_index is None),
    {
        self.preset_id.is_none() && self.effect_index.is_none()
    }

    /// Whether planning would consult the palette catalog: no palette
    /// index has been discovered yet.
    pub fn needs_palette_catalog(&self) -> (r: bool)
        ensures
            r == (self.palette_index is None),
    {
        self.palette_index.is_none()
    }

    /// Plans the one state update that makes the message visible: the text
    /// as the segment name, the parsed color (or gold) as Color 1, power
    /// on at brightness 128, options forcing Color 1 at the largest font,
    /// and the memoized or freshly discovered effect and palette indices.
    /// A configured preset replaces effect discovery; a configured legacy
    /// key adds the flat-parameter query.  Catalogs the caller could not
    /// fetch are passed as absent and their selector is skipped.
    pub fn plan(
        &mut self,
        text: &str,
        color: Option<&str>,
        effects: Option<&Vec<String>>,
        palettes: Option<&Vec<String>>,
    ) -> (p: UpdatePlan)
        ensures
            final(self).preset_id == old(self).preset_id,
            final(self).text_param_key == old(self).text_param_key,
            p.preset == old(self).preset_id,
            p.state.on == true,
            p.state.brightness == 128,
            p.state.segment.name@ == text@,
            p.state.segment.color == spec_effective_color(
                match color {
                    Some(s) => Some(s@),
                    None => None,
                },
            ),
            p.state.segment.color_mode == 0,
            p.state.segment.font_size == 255,
            old(self).preset_id is Some ==> p.state.segment.effect is None
                && final(self).effect_index == old(self).effect_index,
            old(self).preset_id is None ==> ({
                let chosen = match old(self).effect_index {
                    Some(i) => Some(i as int),
                    None => match effects {
                        Some(list) => spec_find_text_effect(list@.map_values(|s: String| s@)),
                        None => None,
                    },
                };
                opt_index_matches(p.state.segment.effect, chosen) && opt_index_matches(
                    final(self).effect_index,
                    chosen,
                )
            }),
            ({
                let chosen = match old(self).palette_index {
                    Some(i) => Some(i as int),
                    None => match palettes {
                        Some(list) => spec_find_color1_palette(list@.map_values(|s: String| s@)),
                        None => None,
                    },
                };
                opt_index_matches(p.state.segment.palette, chosen) && opt_index_matches(
                    final(self).palette_index,
                    chosen,
                )
            }),
            match old(self).text_param_key {
                Some(key) => p.legacy_query matches Some(q) && q@ == key@ + "="@ + url_encoded(
                    text@,
                ),
                None => p.legacy_query is None,
            },
    {
        let fx: Option<usize> = if self.preset_id.is_some() {
            None
        } else {
            match self.effect_index {
                Some(i) => Some(i),
                None => match effects {
                    Some(list) => {
                        let found = find_text_effect_index(list);
                        match found {
                            Some(i) => {
                                self.effect_index = Some(i);
                                Some(i)
                            },
                            None => None,
                        }
                    },
                    None => None,
                },
            }
        };
        let pal: Option<usize> = match self.palette_index {
            Some(i) => Some(i),
            None => match palettes {
                Some(list) => {
                    let found = find_color1_palette_index(list);
                    match found {
                        Some(i) => {
                            self.palette_index = Some(i);
                            Some(i)
                        },
                        None => None,
                    }
                },
                None => None,
            },
        };
        let rgb = effective_color(color);
        let segment = SegmentUpdate {
            name: text.to_owned(),
            color: rgb,
            color_mode: 0,
            font_size: 255,
            palette: pal,
            effect: fx,
        };
        let state = StateUpdate { on: true, brightness: 128, segment };
        let legacy_query = match &self.text_param_key {
            Some(key) => {
                let mut q = key.clone();
                q.append("=");
                let enc = encode_text(text);
                q.append(enc.as_str());
                proof {
                    assert(q@ =~= key@ + "="@ + url_encoded(text@));
                }
                Some(q)
            },
            None => None,
        };
        UpdatePlan { preset: self.preset_id, state, legacy_query }
    }
}

/// The base URL of the device as reached through the local forwarding
/// port.
pub open spec fn spec_base_url(port: int) -> Seq<char> {
    "http://127.0.0.1:"@ + spec_decimal(port)
}

/// Builds the device's base URL for the local forwarding port.
pub fn base_url(port: u16) -> (r: String)
    ensures
        r@ == spec_base_url(port as int),
{
    let mut s = "http://127.0.0.1:".to_owned();
    let digits = u64_to_string(port as u64);
    s.append(digits.as_str());
    s
}

/// Builds the URL of the device's state-update endpoint.
pub fn state_url(port: u16) -> (r: String)
    ensures
        r@ == spec_base_url(port as int) + "/json/state"@,
{
    let mut s = base_url(port);
    s.append("/json/state");
    s
}

/// Builds the URL of the device's effects-list endpoint.
pub fn effects_url(port: u16) -> (r: String)
    ensures
        r@ == spec_base_url(port as int) + "/json/effects"@,
{
    let mut s = base_url(port);
    s.append("/json/effects");
    s
}

/// Builds the URL of the device's palettes-list endpoint.
pub fn palettes_url(port: u16) -> (r: String)
    ensures
        r@ == spec_base_url(port as int) + "/json/palettes"@,
{
    let mut s = base_url(port);
    s.append("/json/palettes");
    s
}

/// Builds the URL of the legacy flat-parameter call from a planned query
/// string.
pub fn win_url(port: u16, query: &str) -> (r: String)
    ensures
        r@ == spec_base_url(port as int) + "/win?"@ + query@,
{
    let mut s = base_url(port);
    s.append("/win?");
    s.append(query);
    proof {
        assert(s@ =~= spec_base_url(port as int) + "/win?"@ + query@);
    }
    s
}

} // verus!
