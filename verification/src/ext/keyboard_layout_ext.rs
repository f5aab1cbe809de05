//! Keyboard layouts: look-up by description and the short code that the bar
//! shows for one.

use vstd::prelude::*;
use crate::text::text_view;

verus! {

/// A keyboard layout of the layout database: its name, such as `ru`, and
/// its description, such as `Russian`.
#[derive(Debug, PartialEq, Eq)]
pub struct KeyboardLayout {
    pub name: String,
    pub description: String,
}

/// What a [`KeyboardLayout`] holds.
pub ghost struct KeyboardLayoutView {
    pub name: Seq<char>,
    pub description: Seq<char>,
}

impl View for KeyboardLayout {
    type V = KeyboardLayoutView;

    open spec fn view(&self) -> KeyboardLayoutView {
        KeyboardLayoutView { name: self.name@, description: self.description@ }
    }
}

impl Clone for KeyboardLayout {
    fn clone(&self) -> (copy: Self)
        ensures
            copy@ == self@,
    {
        KeyboardLayout { name: self.name.clone(), description: self.description.clone() }
    }
}

/// The subtags of a language tag that the bar reads: the primary language
/// and, where the tag has one, the region.
#[derive(Clone, Debug, PartialEq, Eq)]
pub struct LanguageSubtags {
    pub primary_language: String,
    pub region: Option<String>,
}

/// What a [`LanguageSubtags`] holds.
pub ghost struct LanguageSubtagsView {
    pub primary_language: Seq<char>,
    pub region: Option<Seq<char>>,
}

impl View for LanguageSubtags {
    type V = LanguageSubtagsView;

    open spec fn view(&self) -> LanguageSubtagsView {
        LanguageSubtagsView {
            primary_language: self.primary_language@,
            region: match self.region {
                Some(region) => Some(region@),
                None => None,
            },
        }
    }
}

/// The subtags that the language-tag parser reads from a text, `None` where
/// the text is no well-formed language tag.
pub uninterp spec fn language_subtags(name: Seq<char>) -> Option<LanguageSubtagsView>;

/// The view of optional subtags.
pub open spec fn optional_subtags_view(subtags: Option<LanguageSubtags>) -> Option<
    LanguageSubtagsView,
> {
    match subtags {
        Some(subtags) => Some(subtags@),
        None => None,
    }
}

/// The view of an optional layout.
pub open spec fn optional_layout_view(layout: Option<KeyboardLayout>) -> Option<
    KeyboardLayoutView,
> {
    match layout {
        Some(layout) => Some(layout@),
        None => None,
    }
}

/// The views of layouts.
pub open spec fn layout_views(layouts: Seq<KeyboardLayout>) -> Seq<KeyboardLayoutView> {
    layouts.map_values(|layout: KeyboardLayout| layout@)
}

/// Calls `language_tags::LanguageTag::parse` on the text and, where it
/// accepts the text, reads the tag's `primary_language` and `region`.
/// Trusted: the result is what that parser gives for this text; it depends
/// on the text alone.
#[verifier::external_body]
fn parse_language_tag(name: &str) -> (subtags: Option<LanguageSubtags>)
    ensures
        optional_subtags_view(subtags) == language_subtags(name@),
{
    match language_tags::LanguageTag::parse(name) {
        Ok(tag) => Some(
            LanguageSubtags {
                primary_language: tag.primary_language().to_string(),
                region: tag.region().map(|region| region.to_string()),
            },
        ),
        Err(_) => None,
    }
}

/// The code shown for a language tag: its region if it has one, else its
/// primary language.
pub open spec fn display_code(subtags: LanguageSubtagsView) -> Seq<char> {
    match subtags.region {
        Some(region) => region,
        None => subtags.primary_language,
    }
}

/// The code shown for a layout name: that of its language tag, if the name
/// is one.
pub open spec fn localized_name(name: Seq<char>) -> Option<Seq<char>> {
    match language_subtags(name) {
        Some(subtags) => Some(display_code(subtags)),
        None => None,
    }
}

/// The first layout with this description.
pub open spec fn first_described(layouts: Seq<KeyboardLayoutView>, description: Seq<char>) -> Option<
    KeyboardLayoutView,
>
    decreases layouts.len(),
{
    if layouts.len() == 0 {
        None
    } else if layouts[0].description == description {
        Some(layouts[0])
    } else {
        first_described(layouts.skip(1), description)
    }
}

/// The code shown for the layout with this description: the layout is
/// looked up, then its name is read as a language tag.
pub open spec fn localized_layout(layouts: Seq<KeyboardLayoutView>, description: Seq<char>) -> Option<
    Seq<char>,
> {
    match first_described(layouts, description) {
        Some(layout) => localized_name(layout.name),
        None => None,
    }
}

impl LanguageSubtags {
    /// The code shown for the tag: its region if it has one, else its
    /// primary language.
    pub fn display_code(self) -> (code: String)
        ensures
            code@ == display_code(self@),
    {
        match self.region {
            Some(region) => region,
            None => self.primary_language,
        }
    }
}

/// What the bar asks of a layout database.
pub trait KeyboardLayoutEx: Sized {
    /// The first of the layouts whose description is `display_name`.
    fn find(layouts: &Vec<Self>, display_name: &str) -> Option<Self>;

    /// The short code that the bar shows for the layout.
    fn localized(&self) -> Option<String>;
}

impl KeyboardLayoutEx for KeyboardLayout {
    /// The first of the layouts whose description is `display_name`.
    fn find(layouts: &Vec<KeyboardLayout>, display_name: &str) -> (found: Option<KeyboardLayout>)
        ensures
            optional_layout_view(found) == first_described(layout_views(layouts@), display_name@),
    {
        let wanted: String = display_name.to_owned();
        let ghost all = layout_views(layouts@);
        let mut index: usize = 0;
        assert(all.skip(0) =~= all);
        while index < layouts.len()
            invariant
                index <= layouts.len(),
                wanted@ == display_name@,
                all == layout_views(layouts@),
                first_described(all, display_name@) == first_described(
                    all.skip(index as int),
                    display_name@,
                ),
            decreases layouts.len() - index,
        {
            if layouts[index].description == wanted {
                return Some(layouts[index].clone());
            }
            assert(all.skip(index as int).skip(1) =~= all.skip(index as int + 1));
            index = index + 1;
        }
        None
    }

    /// The short code that the bar shows for the layout: the region of the
    /// language tag that its name is, or the tag's primary language where
    /// it names no region. `None` where the name is no language tag.
    fn localized(&self) -> (code: Option<String>)
        ensures
            text_view(code) == localized_name(self.name@),
    {
        match parse_language_tag(self.name.as_str()) {
            Some(subtags) => Some(subtags.display_code()),
            None => None,
        }
    }
}

/// Law: the look-up gives the first layout with the description. A layout
/// that is found has the description, and none before it has; none is found
/// exactly if no layout has it.
pub proof fn lemma_first_described(layouts: Seq<KeyboardLayoutView>, description: Seq<char>)
    ensures
        first_described(layouts, description) matches Some(found) ==> found.description
            == description && exists|i: int|
            0 <= i < layouts.len() && layouts[i] == found && forall|k: int|
                0 <= k < i ==> (#[trigger] layouts[k]).description != description,
        first_described(layouts, description) is None <==> forall|k: int|
            0 <= k < layouts.len() ==> (#[trigger] layouts[k]).description != description,
    decreases layouts.len(),
{
    if layouts.len() > 0 {
        if layouts[0].description == description {
            assert(forall|k: int| 0 <= k < 0 ==> (#[trigger] layouts[k]).description != description);
        } else {
            let rest = layouts.skip(1);
            lemma_first_described(rest, description);
            match first_described(rest, description) {
                Some(found) => {
                    let i = choose|i: int|
                        0 <= i < rest.len() && rest[i] == found && forall|k: int|
                            0 <= k < i ==> (#[trigger] rest[k]).description != description;
                    assert(layouts[i + 1] == found);
                    assert forall|k: int| 0 <= k < i + 1 implies (
                    #[trigger] layouts[k]).description != description by {
                        if k > 0 {
                            assert(rest[k - 1].description != description);
                        }
                    }
                },
                None => {
                    assert forall|k: int| 0 <= k < layouts.len() implies (
                    #[trigger] layouts[k]).description != description by {
                        if k > 0 {
                            assert(rest[k - 1].description != description);
                        }
                    }
                },
            }
        }
    }
}

} // verus!
