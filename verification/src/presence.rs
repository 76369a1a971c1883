use vstd::prelude::*;

use crate::config::button_views;
use crate::config::opt_activity_view;
use crate::config::ActivityDefinition;
use crate::config::ActivityView;
use crate::config::opt_view;
use crate::config::ButtonConfig;
use crate::config::ButtonView;
use crate::config::Links;
use crate::config::LinksView;

verus! {

/// What is published to Discord: the two lines, the large image with its hover text,
/// the start of the elapsed-time counter, and the buttons.
pub struct Presence {
    pub details: String,
    pub state: String,
    pub image: Option<String>,
    pub hover: Option<String>,
    pub started_at: Option<i64>,
    pub buttons: Vec<ButtonConfig>,
}

/// The model of a presence.
pub struct PresenceView {
    pub details: Seq<char>,
    pub state: Seq<char>,
    pub image: Option<Seq<char>>,
    pub hover: Option<Seq<char>>,
    pub started_at: Option<i64>,
    pub buttons: Seq<ButtonView>,
}

impl View for Presence {
    type V = PresenceView;

    open spec fn view(&self) -> PresenceView {
        PresenceView {
            details: self.details@,
            state: self.state@,
            image: opt_view(self.image),
            hover: opt_view(self.hover),
            started_at: self.started_at,
            buttons: button_views(self.buttons@),
        }
    }
}

/// The label of the download button.
pub open spec fn download_label() -> Seq<char> {
    "Baixar para Windows"@
}

/// The label of the source-code button.
pub open spec fn source_label() -> Seq<char> {
    "Ver código-fonte"@
}

/// The buttons made from the single links: a download button, then a source-code
/// button, each where its link is given.
pub open spec fn legacy_buttons(links: Option<LinksView>) -> Seq<ButtonView> {
    match links {
        None => Seq::<ButtonView>::empty(),
        Some(l) => {
            let download = match l.download {
                Some(d) => seq![ButtonView { label: download_label(), url: d }],
                None => Seq::<ButtonView>::empty(),
            };
            let source = match l.source {
                Some(s) => seq![ButtonView { label: source_label(), url: s }],
                None => Seq::<ButtonView>::empty(),
            };
            download + source
        },
    }
}

/// The buttons of the shared links: the `<button>` entries where there are any,
/// otherwise the buttons made from the download and source links.
pub open spec fn link_buttons(links: Option<LinksView>) -> Seq<ButtonView> {
    match links {
        Some(l) if l.buttons.len() > 0 => l.buttons,
        _ => legacy_buttons(links),
    }
}

/// The buttons shown with a detected activity: none where it turns buttons off, its own
/// where it has some, and otherwise those of the shared links.
pub open spec fn presence_buttons_spec(
    selected: Option<ActivityView>,
    links: Option<LinksView>,
) -> Seq<ButtonView> {
    match selected {
        Some(a) if !a.buttons_enabled => Seq::<ButtonView>::empty(),
        Some(a) if a.buttons.len() > 0 => a.buttons,
        _ => link_buttons(links),
    }
}

/// The model of an optional reference to the shared links.
pub open spec fn opt_links_ref_view(links: Option<&Links>) -> Option<LinksView> {
    match links {
        Some(l) => Some(l@),
        None => None,
    }
}

impl ButtonConfig {
    /// A second button equal to this one.
    pub fn duplicate(&self) -> (r: ButtonConfig)
        ensures
            r@ == self@,
    {
        ButtonConfig { label: self.label.clone(), url: self.url.clone() }
    }
}

/// Copies of `buttons`, in order.
pub fn copy_buttons(buttons: &[ButtonConfig]) -> (r: Vec<ButtonConfig>)
    ensures
        button_views(r@) == button_views(buttons@),
{
    let mut r: Vec<ButtonConfig> = Vec::new();
    let mut i: usize = 0;
    while i < buttons.len()
        invariant
            i <= buttons@.len(),
            r@.len() == i,
            forall|j: int| 0 <= j < i ==> #[trigger] r@[j]@ == buttons@[j]@,
        decreases buttons@.len() - i,
    {
        r.push(buttons[i].duplicate());
        i += 1;
    }
    assert(button_views(r@) =~= button_views(buttons@));
    r
}

/// The buttons of the shared links: copies of the `<button>` entries where there are
/// any, otherwise buttons made from the download and source links.
pub fn buttons_from_links(links: Option<&Links>) -> (r: Vec<ButtonConfig>)
    ensures
        button_views(r@) == link_buttons(opt_links_ref_view(links)),
{
    let mut buttons: Vec<ButtonConfig> = Vec::new();
    if let Some(links) = links {
        if links.buttons().len() > 0 {
            return copy_buttons(links.buttons());
        }
        if let Some(download) = links.download() {
            buttons.push(
                ButtonConfig {
                    label: String::from_str("Baixar para Windows"),
                    url: String::from_str(download),
                },
            );
        }
        if let Some(source) = links.source() {
            buttons.push(
                ButtonConfig {
                    label: String::from_str("Ver código-fonte"),
                    url: String::from_str(source),
                },
            );
        }
        assert(button_views(buttons@) =~= legacy_buttons(opt_links_ref_view(Some(links))));
    } else {
        assert(button_views(buttons@) =~= Seq::<ButtonView>::empty());
    }
    buttons
}

/// The buttons shown with the detected activity `selected`.
pub fn presence_buttons(selected: Option<&ActivityDefinition>, links: Option<&Links>) -> (r: Vec<
    ButtonConfig,
>)
    ensures
        button_views(r@) == presence_buttons_spec(opt_activity_view(selected), opt_links_ref_view(links)),
{
    if let Some(activity) = selected {
        if !activity.buttons_enabled {
            let none: Vec<ButtonConfig> = Vec::new();
            assert(button_views(none@) =~= Seq::<ButtonView>::empty());
            return none;
        }
        if activity.buttons.len() > 0 {
            return copy_buttons(activity.buttons.as_slice());
        }
    }
    buttons_from_links(links)
}

/// What is published while activities are hidden.
pub open spec fn hidden_presence_spec(links: Option<LinksView>) -> PresenceView {
    PresenceView {
        details: "Activities hidden"@,
        state: "0 activities displayed"@,
        image: None,
        hover: None,
        started_at: None,
        buttons: link_buttons(links),
    }
}

/// The presence published while activities are hidden: it says so, and keeps the
/// link buttons.
pub fn hidden_presence(links: Option<&Links>) -> (r: Presence)
    ensures
        r@ == hidden_presence_spec(opt_links_ref_view(links)),
{
    Presence {
        details: String::from_str("Activities hidden"),
        state: String::from_str("0 activities displayed"),
        image: None,
        hover: None,
        started_at: None,
        buttons: buttons_from_links(links),
    }
}

/// Which buttons are shown, for every activity and every set of links: an activity
/// that turns buttons off shows none; one that has its own shows exactly those; and
/// otherwise the shared `<button>` entries are shown where there are any, the legacy
/// download and source links only where there are none.
pub proof fn law_button_precedence(a: ActivityView, links: Option<LinksView>)
    ensures
        !a.buttons_enabled ==> presence_buttons_spec(Some(a), links).len() == 0,
        a.buttons_enabled && a.buttons.len() > 0 ==> presence_buttons_spec(Some(a), links)
            == a.buttons,
        a.buttons_enabled && a.buttons.len() == 0 ==> presence_buttons_spec(Some(a), links)
            == presence_buttons_spec(None, links),
        match links {
            Some(l) => {
                &&& l.buttons.len() > 0 ==> presence_buttons_spec(None, links) == l.buttons
                &&& l.buttons.len() == 0 ==> presence_buttons_spec(None, links)
                    == legacy_buttons(links)
            },
            None => presence_buttons_spec(None, links).len() == 0,
        },
{
}

} // verus!
