use vstd::prelude::*;

use crate::text::chars_of;
use crate::text::decimal;
use crate::text::push_decimal;
use crate::text::string_views;
use crate::text::trim;
use crate::text::law_trim_idempotent;
use crate::text::trimmed;
use crate::text::utf8_len;
use crate::text::utf8_len_exceeds;

verus! {

/// A button that Discord shows under the presence: a label and the link it opens.
pub struct ButtonConfig {
    pub label: String,
    pub url: String,
}

/// The model of a button: its label and its link as characters.
pub struct ButtonView {
    pub label: Seq<char>,
    pub url: Seq<char>,
}

impl View for ButtonConfig {
    type V = ButtonView;

    open spec fn view(&self) -> ButtonView {
        ButtonView { label: self.label@, url: self.url@ }
    }
}

/// The model of an optional string.
pub open spec fn opt_view(o: Option<String>) -> Option<Seq<char>> {
    match o {
        Some(s) => Some(s@),
        None => None,
    }
}

/// The model of an optional string slice.
pub open spec fn opt_str_view(o: Option<&str>) -> Option<Seq<char>> {
    match o {
        Some(s) => Some(s@),
        None => None,
    }
}

/// The models of a sequence of buttons.
pub open spec fn button_views(b: Seq<ButtonConfig>) -> Seq<ButtonView> {
    b.map_values(|x: ButtonConfig| x@)
}

/// One configured activity: what it is called, how it is shown, and the processes
/// that reveal it.
pub struct ActivityDefinition {
    pub name: String,
    pub display_name: Option<String>,
    pub verb: Option<String>,
    pub image: Option<String>,
    pub image_url: Option<String>,
    pub buttons_enabled: bool,
    pub buttons: Vec<ButtonConfig>,
    pub windows_processes: Vec<String>,
}

/// The model of an activity definition.
pub struct ActivityView {
    pub name: Seq<char>,
    pub display_name: Option<Seq<char>>,
    pub verb: Option<Seq<char>>,
    pub image: Option<Seq<char>>,
    pub image_url: Option<Seq<char>>,
    pub buttons_enabled: bool,
    pub buttons: Seq<ButtonView>,
    pub windows_processes: Seq<Seq<char>>,
}

impl View for ActivityDefinition {
    type V = ActivityView;

    open spec fn view(&self) -> ActivityView {
        ActivityView {
            name: self.name@,
            display_name: opt_view(self.display_name),
            verb: opt_view(self.verb),
            image: opt_view(self.image),
            image_url: opt_view(self.image_url),
            buttons_enabled: self.buttons_enabled,
            buttons: button_views(self.buttons@),
            windows_processes: string_views(self.windows_processes@),
        }
    }
}

/// The models of a sequence of activity definitions.
pub open spec fn activity_views(a: Seq<ActivityDefinition>) -> Seq<ActivityView> {
    a.map_values(|x: ActivityDefinition| x@)
}

/// Links shared by all activities: buttons, and the older single links.
pub struct Links {
    repository: Option<String>,
    buttons: Vec<ButtonConfig>,
    download: Option<String>,
    source: Option<String>,
}

/// The model of the shared links.
pub struct LinksView {
    pub repository: Option<Seq<char>>,
    pub buttons: Seq<ButtonView>,
    pub download: Option<Seq<char>>,
    pub source: Option<Seq<char>>,
}

impl View for Links {
    type V = LinksView;

    closed spec fn view(&self) -> LinksView {
        LinksView {
            repository: opt_view(self.repository),
            buttons: button_views(self.buttons@),
            download: opt_view(self.download),
            source: opt_view(self.source),
        }
    }
}

/// The model of an optional `Links`.
pub open spec fn opt_links_view(o: Option<Links>) -> Option<LinksView> {
    match o {
        Some(l) => Some(l@),
        None => None,
    }
}

/// The repository link: the `repository` entry, or else the `source` entry.
pub open spec fn repository_link(l: LinksView) -> Option<Seq<char>> {
    match l.repository {
        Some(r) => Some(r),
        None => l.source,
    }
}

impl Links {
    /// Links with the given entries.
    pub fn new(
        repository: Option<String>,
        buttons: Vec<ButtonConfig>,
        download: Option<String>,
        source: Option<String>,
    ) -> (r: Links)
        ensures
            r@ == (LinksView {
                repository: opt_view(repository),
                buttons: button_views(buttons@),
                download: opt_view(download),
                source: opt_view(source),
            }),
    {
        Links { repository, buttons, download, source }
    }

    /// The four entries, as they are held: repository, buttons, download, source.
    pub fn into_parts(self) -> (r: (Option<String>, Vec<ButtonConfig>, Option<String>, Option<String>))
        ensures
            opt_view(r.0) == self@.repository,
            button_views(r.1@) == self@.buttons,
            opt_view(r.2) == self@.download,
            opt_view(r.3) == self@.source,
    {
        (self.repository, self.buttons, self.download, self.source)
    }

    /// The repository link; the `source` link stands in where no repository is given.
    pub fn repository(&self) -> (r: Option<&str>)
        ensures
            opt_str_view(r) == repository_link(self@),
    {
        match &self.repository {
            Some(r) => Some(r.as_str()),
            None => self.source(),
        }
    }

    /// The buttons given for all activities.
    pub fn buttons(&self) -> (r: &[ButtonConfig])
        ensures
            button_views(r@) == self@.buttons,
    {
        self.buttons.as_slice()
    }

    /// The download link.
    pub fn download(&self) -> (r: Option<&str>)
        ensures
            opt_str_view(r) == self@.download,
    {
        match &self.download {
            Some(d) => Some(d.as_str()),
            None => None,
        }
    }

    /// The source-code link.
    pub fn source(&self) -> (r: Option<&str>)
        ensures
            opt_str_view(r) == self@.source,
    {
        match &self.source {
            Some(s) => Some(s.as_str()),
            None => None,
        }
    }
}

impl ActivityDefinition {
    /// The executable names that reveal this activity.
    pub fn process_names(&self) -> (r: &[String])
        ensures
            string_views(r@) == self@.windows_processes,
    {
        self.windows_processes.as_slice()
    }
}

/// The buttons shown for the selected activity: none where it turns buttons off, its
/// own where it has some, and otherwise the shared ones.
pub open spec fn selected_buttons_spec(
    selected: Option<ActivityView>,
    links: Option<LinksView>,
) -> Seq<ButtonView> {
    match selected {
        Some(a) if !a.buttons_enabled => Seq::<ButtonView>::empty(),
        Some(a) if a.buttons.len() > 0 => a.buttons,
        _ => match links {
            Some(l) => l.buttons,
            None => Seq::<ButtonView>::empty(),
        },
    }
}

/// The model of an optional activity definition.
pub open spec fn opt_activity_view(o: Option<&ActivityDefinition>) -> Option<ActivityView> {
    match o {
        Some(a) => Some(a@),
        None => None,
    }
}

/// The buttons to show for `selected`, falling back to the shared links.
pub fn selected_buttons<'a>(
    selected: Option<&'a ActivityDefinition>,
    links: Option<&'a Links>,
) -> (r: &'a [ButtonConfig])
    ensures
        button_views(r@) == selected_buttons_spec(
            opt_activity_view(selected),
            match links {
                Some(l) => Some(l@),
                None => None,
            },
        ),
{
    if let Some(activity) = selected {
        if !activity.buttons_enabled {
            return &[];
        }
        if activity.buttons.len() > 0 {
            return activity.buttons.as_slice();
        }
    }
    match links {
        Some(l) => l.buttons(),
        None => &[],
    }
}

/// Buttons are shown unless an activity turns them off.
pub fn default_true() -> (r: bool)
    ensures
        r,
{
    true
}

/// The polling interval, in seconds, where the configuration gives none.
pub fn default_poll_seconds() -> (r: u64)
    ensures
        r == 5,
{
    5
}


/// The whole configuration: the Discord application, how often to look, the shared
/// links, and the activities in the order in which they are listed.
pub struct Config {
    pub discord_application_id: String,
    pub poll_seconds: u64,
    pub links: Option<Links>,
    pub activities: Vec<ActivityDefinition>,
}

/// The model of a configuration.
pub struct ConfigView {
    pub discord_application_id: Seq<char>,
    pub poll_seconds: u64,
    pub links: Option<LinksView>,
    pub activities: Seq<ActivityView>,
}

impl View for Config {
    type V = ConfigView;

    open spec fn view(&self) -> ConfigView {
        ConfigView {
            discord_application_id: self.discord_application_id@,
            poll_seconds: self.poll_seconds,
            links: opt_links_view(self.links),
            activities: activity_views(self.activities@),
        }
    }
}

/// Which link a URL problem was found in.
pub enum LinkName {
    Repository,
    Download,
    Source,
    ImageUrl { activity: String },
    Button { label: String },
}

/// Which list of buttons a button problem was found in.
pub enum ButtonScope {
    GlobalLinks,
    Activity { name: String },
}

/// Why a configuration was refused.
pub enum ConfigError {
    /// The application ID is empty or holds something other than ASCII digits.
    InvalidApplicationId,
    /// The polling interval is zero.
    ZeroPollSeconds,
    /// A link starts with neither `http://` nor `https://`.
    UrlScheme { link: LinkName },
    /// A link is longer than 512 bytes.
    UrlTooLong { link: LinkName },
    /// More than two buttons in one list.
    TooManyButtons { scope: ButtonScope },
    /// A button label that is empty or longer than 32 characters.
    ButtonLabel { scope: ButtonScope },
    /// No activity at all.
    NoActivities,
    /// A second activity with a name already used.
    DuplicateActivityName { name: String },
    /// An activity, at this position counted from zero, without a name.
    EmptyActivityName { index: usize },
    /// An activity without any process name.
    NoProcessNames { name: String },
    /// An activity that turns buttons off and still lists some.
    ButtonsDisabledButDefined { name: String },
}

/// The model of a link name.
pub enum LinkNameView {
    Repository,
    Download,
    Source,
    ImageUrl(Seq<char>),
    Button(Seq<char>),
}

/// The model of a button scope.
pub enum ButtonScopeView {
    GlobalLinks,
    Activity(Seq<char>),
}

/// The model of a configuration error.
pub enum ConfigFault {
    InvalidApplicationId,
    ZeroPollSeconds,
    UrlScheme(LinkNameView),
    UrlTooLong(LinkNameView),
    TooManyButtons(ButtonScopeView),
    ButtonLabel(ButtonScopeView),
    NoActivities,
    DuplicateActivityName(Seq<char>),
    EmptyActivityName(nat),
    NoProcessNames(Seq<char>),
    ButtonsDisabledButDefined(Seq<char>),
}

impl View for LinkName {
    type V = LinkNameView;

    open spec fn view(&self) -> LinkNameView {
        match self {
            LinkName::Repository => LinkNameView::Repository,
            LinkName::Download => LinkNameView::Download,
            LinkName::Source => LinkNameView::Source,
            LinkName::ImageUrl { activity } => LinkNameView::ImageUrl(activity@),
            LinkName::Button { label } => LinkNameView::Button(label@),
        }
    }
}

impl View for ButtonScope {
    type V = ButtonScopeView;

    open spec fn view(&self) -> ButtonScopeView {
        match self {
            ButtonScope::GlobalLinks => ButtonScopeView::GlobalLinks,
            ButtonScope::Activity { name } => ButtonScopeView::Activity(name@),
        }
    }
}

impl View for ConfigError {
    type V = ConfigFault;

    open spec fn view(&self) -> ConfigFault {
        match self {
            ConfigError::InvalidApplicationId => ConfigFault::InvalidApplicationId,
            ConfigError::ZeroPollSeconds => ConfigFault::ZeroPollSeconds,
            ConfigError::UrlScheme { link } => ConfigFault::UrlScheme(link@),
            ConfigError::UrlTooLong { link } => ConfigFault::UrlTooLong(link@),
            ConfigError::TooManyButtons { scope } => ConfigFault::TooManyButtons(scope@),
            ConfigError::ButtonLabel { scope } => ConfigFault::ButtonLabel(scope@),
            ConfigError::NoActivities => ConfigFault::NoActivities,
            ConfigError::DuplicateActivityName { name } => ConfigFault::DuplicateActivityName(
                name@,
            ),
            ConfigError::EmptyActivityName { index } => ConfigFault::EmptyActivityName(
                *index as nat,
            ),
            ConfigError::NoProcessNames { name } => ConfigFault::NoProcessNames(name@),
            ConfigError::ButtonsDisabledButDefined { name } =>
                ConfigFault::ButtonsDisabledButDefined(name@),
        }
    }
}

impl ButtonScope {
    /// A second scope equal to this one.
    pub fn duplicate(&self) -> (r: ButtonScope)
        ensures
            r@ == self@,
    {
        match self {
            ButtonScope::GlobalLinks => ButtonScope::GlobalLinks,
            ButtonScope::Activity { name } => ButtonScope::Activity { name: name.clone() },
        }
    }
}

/// How a link is named in a message.
pub open spec fn link_text(link: LinkNameView) -> Seq<char> {
    match link {
        LinkNameView::Repository => "repository"@,
        LinkNameView::Download => "download"@,
        LinkNameView::Source => "source"@,
        LinkNameView::ImageUrl(a) => "image-url for '"@ + a + "'"@,
        LinkNameView::Button(label) => label,
    }
}

/// How a list of buttons is named in a message.
pub open spec fn scope_text(scope: ButtonScopeView) -> Seq<char> {
    match scope {
        ButtonScopeView::GlobalLinks => "global links"@,
        ButtonScopeView::Activity(n) => "activity '"@ + n + "'"@,
    }
}

/// The message shown for a refused configuration.
pub open spec fn fault_message(fault: ConfigFault) -> Seq<char> {
    match fault {
        ConfigFault::InvalidApplicationId =>
            "discord-application-id must be the numeric ID from the Discord Developer Portal"@,
        ConfigFault::ZeroPollSeconds => "poll-seconds must be greater than zero"@,
        ConfigFault::UrlScheme(l) => "link '"@ + link_text(l)
            + "' must start with http:// or https://"@,
        ConfigFault::UrlTooLong(l) => "link '"@ + link_text(l) + "' must not exceed 512 bytes"@,
        ConfigFault::TooManyButtons(s) => scope_text(s) + " supports at most two <button> entries"@,
        ConfigFault::ButtonLabel(s) => scope_text(s)
            + ": button labels must contain 1 to 32 characters"@,
        ConfigFault::NoActivities => "at least one activity is required"@,
        ConfigFault::DuplicateActivityName(n) => "duplicate activity name: '"@ + n + "'"@,
        ConfigFault::EmptyActivityName(i) => "activity "@ + decimal(i + 1) + " has an empty name"@,
        ConfigFault::NoProcessNames(n) => "activity '"@ + n + "' has no process names"@,
        ConfigFault::ButtonsDisabledButDefined(n) => "activity '"@ + n
            + "' has <buttons-enabled>false</buttons-enabled> and also defines <button>"@,
    }
}

impl LinkName {
    /// How the link is named in a message.
    pub fn text(&self) -> (r: String)
        ensures
            r@ == link_text(self@),
    {
        match self {
            LinkName::Repository => String::from_str("repository"),
            LinkName::Download => String::from_str("download"),
            LinkName::Source => String::from_str("source"),
            LinkName::ImageUrl { activity } => {
                let mut r = String::from_str("image-url for '");
                r.append(activity.as_str());
                r.append("'");
                r
            },
            LinkName::Button { label } => label.clone(),
        }
    }
}

impl ButtonScope {
    /// How the list of buttons is named in a message.
    pub fn text(&self) -> (r: String)
        ensures
            r@ == scope_text(self@),
    {
        match self {
            ButtonScope::GlobalLinks => String::from_str("global links"),
            ButtonScope::Activity { name } => {
                let mut r = String::from_str("activity '");
                r.append(name.as_str());
                r.append("'");
                r
            },
        }
    }
}

/// `prefix`, `middle` and `suffix` one after another.
fn framed(prefix: &str, middle: &str, suffix: &str) -> (r: String)
    ensures
        r@ == prefix@ + middle@ + suffix@,
{
    let mut r = String::from_str(prefix);
    r.append(middle);
    r.append(suffix);
    r
}

impl ConfigError {
    /// The message shown for this error.
    pub fn message(&self) -> (r: String)
        ensures
            r@ == fault_message(self@),
    {
        match self {
            ConfigError::InvalidApplicationId => String::from_str(
                "discord-application-id must be the numeric ID from the Discord Developer Portal",
            ),
            ConfigError::ZeroPollSeconds => String::from_str(
                "poll-seconds must be greater than zero",
            ),
            ConfigError::UrlScheme { link } => {
                let name = link.text();
                framed("link '", name.as_str(), "' must start with http:// or https://")
            },
            ConfigError::UrlTooLong { link } => {
                let name = link.text();
                framed("link '", name.as_str(), "' must not exceed 512 bytes")
            },
            ConfigError::TooManyButtons { scope } => {
                let mut r = scope.text();
                r.append(" supports at most two <button> entries");
                r
            },
            ConfigError::ButtonLabel { scope } => {
                let mut r = scope.text();
                r.append(": button labels must contain 1 to 32 characters");
                r
            },
            ConfigError::NoActivities => String::from_str("at least one activity is required"),
            ConfigError::DuplicateActivityName { name } => framed(
                "duplicate activity name: '",
                name.as_str(),
                "'",
            ),
            ConfigError::EmptyActivityName { index } => {
                let mut r = String::from_str("activity ");
                push_decimal(&mut r, *index as u128 + 1);
                r.append(" has an empty name");
                r
            },
            ConfigError::NoProcessNames { name } => framed(
                "activity '",
                name.as_str(),
                "' has no process names",
            ),
            ConfigError::ButtonsDisabledButDefined { name } => framed(
                "activity '",
                name.as_str(),
                "' has <buttons-enabled>false</buttons-enabled> and also defines <button>",
            ),
        }
    }
}

/// The model of a check's outcome.
pub open spec fn check_view(r: Result<(), ConfigError>) -> Result<(), ConfigFault> {
    match r {
        Ok(()) => Ok(()),
        Err(e) => Err(e@),
    }
}

/// Whether `s` begins with `p`.
pub open spec fn starts_with(s: Seq<char>, p: Seq<char>) -> bool {
    p.len() <= s.len() && s.take(p.len() as int) == p
}

/// Whether `s` begins with `p`, as `str::starts_with` tells.
pub fn has_prefix(s: &str, p: &str) -> (r: bool)
    ensures
        r == starts_with(s@, p@),
{
    let sv = chars_of(s);
    let pv = chars_of(p);
    if pv.len() > sv.len() {
        return false;
    }
    let mut i: usize = 0;
    while i < pv.len()
        invariant
            i <= pv@.len() <= sv@.len(),
            sv@ == s@,
            pv@ == p@,
            forall|j: int| 0 <= j < i ==> sv@[j] == pv@[j],
        decreases pv@.len() - i,
    {
        if sv[i] != pv[i] {
            assert(s@.take(p@.len() as int)[i as int] != p@[i as int]);
            return false;
        }
        i += 1;
    }
    assert(s@.take(p@.len() as int) =~= p@);
    true
}

/// Whether every character of `s` is an ASCII digit.
pub open spec fn all_ascii_digits(s: Seq<char>) -> bool {
    forall|i: int| 0 <= i < s.len() ==> '0' <= #[trigger] s[i] <= '9'
}

/// Whether every character of `s` is an ASCII digit.
pub fn is_ascii_digits(s: &str) -> (r: bool)
    ensures
        r == all_ascii_digits(s@),
{
    let v = chars_of(s);
    let mut i: usize = 0;
    while i < v.len()
        invariant
            i <= v@.len(),
            v@ == s@,
            forall|j: int| 0 <= j < i ==> '0' <= #[trigger] v@[j] <= '9',
        decreases v@.len() - i,
    {
        if !('0' <= v[i] && v[i] <= '9') {
            return false;
        }
        i += 1;
    }
    true
}

/// A link that Discord accepts: it starts with `https://` or `http://`.
pub open spec fn is_web_link(url: Seq<char>) -> bool {
    starts_with(url, "https://"@) || starts_with(url, "http://"@)
}

/// The check of one link: its scheme, then its length in bytes.
pub open spec fn url_check(link: LinkNameView, url: Seq<char>) -> Result<(), ConfigFault> {
    if !is_web_link(url) {
        Err(ConfigFault::UrlScheme(link))
    } else if utf8_len(url) > 512 {
        Err(ConfigFault::UrlTooLong(link))
    } else {
        Ok(())
    }
}

/// The check of a link that may be absent.
pub open spec fn optional_url_check(link: LinkNameView, url: Option<Seq<char>>) -> Result<
    (),
    ConfigFault,
> {
    match url {
        Some(u) => url_check(link, u),
        None => Ok(()),
    }
}

/// A label Discord accepts: 1 to 32 characters.
pub open spec fn label_ok(label: Seq<char>) -> bool {
    0 < label.len() <= 32
}

/// The check of one button: its label, then its link.
pub open spec fn button_check(scope: ButtonScopeView, b: ButtonView) -> Result<(), ConfigFault> {
    if !label_ok(b.label) {
        Err(ConfigFault::ButtonLabel(scope))
    } else {
        url_check(LinkNameView::Button(b.label), b.url)
    }
}

/// The first failing check among `b`, in order.
pub open spec fn each_button_check(scope: ButtonScopeView, b: Seq<ButtonView>) -> Result<
    (),
    ConfigFault,
>
    decreases b.len(),
{
    if b.len() == 0 {
        Ok(())
    } else if button_check(scope, b[0]) is Err {
        button_check(scope, b[0])
    } else {
        each_button_check(scope, b.drop_first())
    }
}

/// The check of a list of buttons: at most two, each of them valid.
pub open spec fn buttons_check(scope: ButtonScopeView, b: Seq<ButtonView>) -> Result<
    (),
    ConfigFault,
> {
    if b.len() > 2 {
        Err(ConfigFault::TooManyButtons(scope))
    } else {
        each_button_check(scope, b)
    }
}

/// Checks that `url` is a web link of at most 512 bytes.
pub fn validate_url(name: LinkName, url: &str) -> (r: Result<(), ConfigError>)
    ensures
        check_view(r) == url_check(name@, url@),
{
    if !has_prefix(url, "https://") && !has_prefix(url, "http://") {
        return Err(ConfigError::UrlScheme { link: name });
    }
    if utf8_len_exceeds(url, 512) {
        return Err(ConfigError::UrlTooLong { link: name });
    }
    Ok(())
}

/// Checks a list of buttons: at most two, each with a label of 1 to 32 characters and a
/// valid link.
pub fn validate_buttons(scope: &ButtonScope, buttons: &[ButtonConfig]) -> (r: Result<
    (),
    ConfigError,
>)
    ensures
        check_view(r) == buttons_check(scope@, button_views(buttons@)),
{
    let ghost views = button_views(buttons@);
    if buttons.len() > 2 {
        return Err(ConfigError::TooManyButtons { scope: scope.duplicate() });
    }
    let mut i: usize = 0;
    assert(views.skip(0) =~= views);
    while i < buttons.len()
        invariant
            i <= buttons@.len() <= 2,
            views == button_views(buttons@),
            each_button_check(scope@, views) == each_button_check(scope@, views.skip(i as int)),
        decreases buttons@.len() - i,
    {
        let button = &buttons[i];
        assert(views.skip(i as int)[0] == button@);
        assert(views.skip(i as int).len() > 0);
        let count = button.label.as_str().unicode_len();
        if count == 0 || count > 32 {
            assert(button_check(scope@, button@) is Err);
            return Err(ConfigError::ButtonLabel { scope: scope.duplicate() });
        }
        let checked = validate_url(
            LinkName::Button { label: button.label.clone() },
            button.url.as_str(),
        );
        if checked.is_err() {
            assert(button_check(scope@, button@) == check_view(checked));
            return checked;
        }
        assert(views.skip(i as int).drop_first() =~= views.skip(i + 1));
        i += 1;
    }
    Ok(())
}


/// The check of the shared links: the repository, download and source links in that
/// order, then the shared buttons.
pub open spec fn links_check(l: LinksView) -> Result<(), ConfigFault> {
    let repository = optional_url_check(LinkNameView::Repository, repository_link(l));
    let download = optional_url_check(LinkNameView::Download, l.download);
    let source = optional_url_check(LinkNameView::Source, l.source);
    if repository is Err {
        repository
    } else if download is Err {
        download
    } else if source is Err {
        source
    } else {
        buttons_check(ButtonScopeView::GlobalLinks, l.buttons)
    }
}

/// Whether the activity at `i` reuses the name of an earlier one.
pub open spec fn name_seen_before(acts: Seq<ActivityView>, i: int) -> bool {
    exists|j: int| 0 <= j < i && #[trigger] acts[j].name == acts[i].name
}

/// The check of the activity at `i`, in the order the checks are made.
pub open spec fn activity_check(acts: Seq<ActivityView>, i: int) -> Result<(), ConfigFault> {
    let a = acts[i];
    let image = optional_url_check(LinkNameView::ImageUrl(a.name), a.image_url);
    let buttons = buttons_check(ButtonScopeView::Activity(a.name), a.buttons);
    if name_seen_before(acts, i) {
        Err(ConfigFault::DuplicateActivityName(a.name))
    } else if a.name.len() == 0 {
        Err(ConfigFault::EmptyActivityName(i as nat))
    } else if a.windows_processes.len() == 0 {
        Err(ConfigFault::NoProcessNames(a.name))
    } else if image is Err {
        image
    } else if buttons is Err {
        buttons
    } else if !a.buttons_enabled && a.buttons.len() > 0 {
        Err(ConfigFault::ButtonsDisabledButDefined(a.name))
    } else {
        Ok(())
    }
}

/// The first failing check among the activities from `i` on.
pub open spec fn activities_check_from(acts: Seq<ActivityView>, i: int) -> Result<(), ConfigFault>
    decreases acts.len() - i,
{
    if i < 0 || i >= acts.len() {
        Ok(())
    } else if activity_check(acts, i) is Err {
        activity_check(acts, i)
    } else {
        activities_check_from(acts, i + 1)
    }
}

/// The check of a whole configuration, in the order the checks are made.
pub open spec fn config_check(c: ConfigView) -> Result<(), ConfigFault> {
    let links = match c.links {
        Some(l) => links_check(l),
        None => Ok(()),
    };
    if c.discord_application_id.len() == 0 || !all_ascii_digits(c.discord_application_id) {
        Err(ConfigFault::InvalidApplicationId)
    } else if c.poll_seconds == 0 {
        Err(ConfigFault::ZeroPollSeconds)
    } else if links is Err {
        links
    } else if c.activities.len() == 0 {
        Err(ConfigFault::NoActivities)
    } else {
        activities_check_from(c.activities, 0)
    }
}

/// Checks a link that may be absent.
fn validate_optional_url(name: LinkName, url: Option<&str>) -> (r: Result<(), ConfigError>)
    ensures
        check_view(r) == optional_url_check(name@, opt_str_view(url)),
{
    match url {
        Some(u) => validate_url(name, u),
        None => Ok(()),
    }
}

/// An optional string as an optional slice.
fn as_opt_str(o: &Option<String>) -> (r: Option<&str>)
    ensures
        opt_str_view(r) == opt_view(*o),
{
    match o {
        Some(s) => Some(s.as_str()),
        None => None,
    }
}

/// Checks the shared links.
fn validate_links(links: &Links) -> (r: Result<(), ConfigError>)
    ensures
        check_view(r) == links_check(links@),
{
    let repository = validate_optional_url(LinkName::Repository, links.repository());
    if repository.is_err() {
        return repository;
    }
    let download = validate_optional_url(LinkName::Download, links.download());
    if download.is_err() {
        return download;
    }
    let source = validate_optional_url(LinkName::Source, links.source());
    if source.is_err() {
        return source;
    }
    validate_buttons(&ButtonScope::GlobalLinks, links.buttons())
}

/// Whether an activity before `i` has the name of the activity at `i`.
fn name_used_before(activities: &Vec<ActivityDefinition>, i: usize) -> (r: bool)
    requires
        i < activities@.len(),
    ensures
        r == name_seen_before(activity_views(activities@), i as int),
{
    let ghost acts = activity_views(activities@);
    let mut j: usize = 0;
    while j < i
        invariant
            j <= i < activities@.len(),
            acts == activity_views(activities@),
            forall|k: int| 0 <= k < j ==> acts[k].name != acts[i as int].name,
        decreases i - j,
    {
        if activities[j].name == activities[i].name {
            assert(acts[j as int].name == acts[i as int].name);
            return true;
        }
        j += 1;
    }
    false
}

/// Checks the activity at `i`.
fn validate_activity(activities: &Vec<ActivityDefinition>, i: usize) -> (r: Result<
    (),
    ConfigError,
>)
    requires
        i < activities@.len(),
    ensures
        check_view(r) == activity_check(activity_views(activities@), i as int),
{
    let ghost acts = activity_views(activities@);
    let activity = &activities[i];
    assert(acts[i as int] == activity@);
    if name_used_before(activities, i) {
        return Err(ConfigError::DuplicateActivityName { name: activity.name.clone() });
    }
    if activity.name.as_str().is_empty() {
        return Err(ConfigError::EmptyActivityName { index: i });
    }
    if activity.windows_processes.len() == 0 {
        return Err(ConfigError::NoProcessNames { name: activity.name.clone() });
    }
    let image = validate_optional_url(
        LinkName::ImageUrl { activity: activity.name.clone() },
        as_opt_str(&activity.image_url),
    );
    if image.is_err() {
        return image;
    }
    let scope = ButtonScope::Activity { name: activity.name.clone() };
    let buttons = validate_buttons(&scope, activity.buttons.as_slice());
    if buttons.is_err() {
        return buttons;
    }
    if !activity.buttons_enabled && activity.buttons.len() > 0 {
        return Err(ConfigError::ButtonsDisabledButDefined { name: activity.name.clone() });
    }
    Ok(())
}

impl Config {
    /// Checks the configuration: a numeric application ID, a polling interval above
    /// zero, valid shared links, and at least one activity, each with a unique non-empty
    /// name, at least one process name, and valid links and buttons. The first problem
    /// found is the one reported.
    pub fn validate(&self) -> (r: Result<(), ConfigError>)
        ensures
            check_view(r) == config_check(self@),
    {
        let id = self.discord_application_id.as_str();
        if id.is_empty() || !is_ascii_digits(id) {
            return Err(ConfigError::InvalidApplicationId);
        }
        if self.poll_seconds == 0 {
            return Err(ConfigError::ZeroPollSeconds);
        }
        if let Some(links) = &self.links {
            let checked = validate_links(links);
            if checked.is_err() {
                return checked;
            }
        }
        if self.activities.len() == 0 {
            return Err(ConfigError::NoActivities);
        }
        let ghost acts = activity_views(self.activities@);
        let n = self.activities.len();
        let mut i: usize = 0;
        assert(config_check(self@) == activities_check_from(acts, 0));
        while i < n
            invariant
                i <= n,
                n == self.activities@.len(),
                acts == activity_views(self.activities@),
                config_check(self@) == activities_check_from(acts, 0),
                activities_check_from(acts, 0) == activities_check_from(acts, i as int),
            decreases n - i,
        {
            let checked = validate_activity(&self.activities, i);
            if checked.is_err() {
                return checked;
            }
            i += 1;
        }
        Ok(())
    }
}


/// `value` trimmed, or nothing where only white space is left.
pub open spec fn normalized_optional(value: Option<Seq<char>>) -> Option<Seq<char>> {
    match value {
        Some(t) => if trimmed(t).len() > 0 {
            Some(trimmed(t))
        } else {
            None
        },
        None => None,
    }
}

/// Each string of `v` trimmed, and those left empty dropped, in order.
pub open spec fn trimmed_non_empty(v: Seq<Seq<char>>) -> Seq<Seq<char>>
    decreases v.len(),
{
    if v.len() == 0 {
        Seq::<Seq<char>>::empty()
    } else {
        let rest = trimmed_non_empty(v.drop_last());
        if trimmed(v.last()).len() > 0 {
            rest.push(trimmed(v.last()))
        } else {
            rest
        }
    }
}

/// A button with its label and link trimmed.
pub open spec fn trimmed_button(b: ButtonView) -> ButtonView {
    ButtonView { label: trimmed(b.label), url: trimmed(b.url) }
}

/// Each button of `b` trimmed.
pub open spec fn trimmed_buttons(b: Seq<ButtonView>) -> Seq<ButtonView> {
    b.map_values(|x: ButtonView| trimmed_button(x))
}

impl ButtonConfig {
    /// Trims the label and the link.
    pub fn trim(&mut self)
        ensures
            final(self)@ == trimmed_button(old(self)@),
    {
        self.label = trim(self.label.as_str());
        self.url = trim(self.url.as_str());
    }
}

/// Trims each button of `buttons`.
pub fn trim_buttons(buttons: &mut Vec<ButtonConfig>)
    ensures
        button_views(final(buttons)@) == trimmed_buttons(button_views(old(buttons)@)),
{
    let n = buttons.len();
    let mut i: usize = 0;
    while i < n
        invariant
            i <= n,
            n == buttons@.len(),
            forall|j: int| 0 <= j < i ==> #[trigger] buttons@[j]@ == trimmed_button(old(buttons)@[j]@),
            forall|j: int| i <= j < n ==> #[trigger] buttons@[j] == old(buttons)@[j],
        decreases n - i,
    {
        buttons[i].trim();
        i += 1;
    }
    assert(button_views(buttons@) =~= trimmed_buttons(button_views(old(buttons)@)));
}


/// Trims an optional string, and drops it where nothing but white space was there.
pub fn normalize_optional(value: &mut Option<String>)
    ensures
        opt_view(*final(value)) == normalized_optional(opt_view(*old(value))),
{
    let next = match &*value {
        Some(text) => {
            let t = trim(text.as_str());
            if t.as_str().is_empty() {
                None
            } else {
                Some(t)
            }
        },
        None => None,
    };
    *value = next;
}

/// Trims each string of `values` and drops those left empty, keeping the order.
pub fn trim_all(values: &mut Vec<String>)
    ensures
        string_views(final(values)@) == trimmed_non_empty(string_views(old(values)@)),
{
    let ghost before = string_views(values@);
    let mut kept: Vec<String> = Vec::new();
    let n = values.len();
    let mut i: usize = 0;
    while i < n
        invariant
            i <= n,
            n == values@.len(),
            before == string_views(values@),
            string_views(kept@) == trimmed_non_empty(before.take(i as int)),
        decreases n - i,
    {
        let t = trim(values[i].as_str());
        assert(before.take(i + 1 as int).drop_last() =~= before.take(i as int));
        if !t.as_str().is_empty() {
            kept.push(t);
            assert(string_views(kept@) =~= trimmed_non_empty(before.take(i as int)).push(
                trimmed(before[i as int]),
            ));
        }
        i += 1;
    }
    assert(before.take(n as int) =~= before);
    *values = kept;
}

/// The shared links with each link normalized and each button trimmed.
pub open spec fn trimmed_links(l: LinksView) -> LinksView {
    LinksView {
        repository: normalized_optional(l.repository),
        buttons: trimmed_buttons(l.buttons),
        download: normalized_optional(l.download),
        source: normalized_optional(l.source),
    }
}

impl Links {
    /// Normalizes the links and trims the buttons.
    fn trim(&mut self)
        ensures
            final(self)@ == trimmed_links(old(self)@),
    {
        normalize_optional(&mut self.repository);
        normalize_optional(&mut self.download);
        normalize_optional(&mut self.source);
        trim_buttons(&mut self.buttons);
    }
}

/// An activity as loading leaves it: its name trimmed, its optional texts normalized,
/// its buttons trimmed, and its process names trimmed with the empty ones dropped.
pub open spec fn normalized_activity(a: ActivityView) -> ActivityView {
    ActivityView {
        name: trimmed(a.name),
        display_name: normalized_optional(a.display_name),
        verb: normalized_optional(a.verb),
        image: normalized_optional(a.image),
        image_url: normalized_optional(a.image_url),
        buttons_enabled: a.buttons_enabled,
        buttons: trimmed_buttons(a.buttons),
        windows_processes: trimmed_non_empty(a.windows_processes),
    }
}

/// A configuration as loading leaves it, before it is checked.
pub open spec fn normalized_config(c: ConfigView) -> ConfigView {
    ConfigView {
        discord_application_id: trimmed(c.discord_application_id),
        poll_seconds: c.poll_seconds,
        links: match c.links {
            Some(l) => Some(trimmed_links(l)),
            None => None,
        },
        activities: c.activities.map_values(|a: ActivityView| normalized_activity(a)),
    }
}

impl ActivityDefinition {
    /// Normalizes the activity as loading does.
    pub fn normalize(&mut self)
        ensures
            final(self)@ == normalized_activity(old(self)@),
    {
        self.name = trim(self.name.as_str());
        normalize_optional(&mut self.display_name);
        normalize_optional(&mut self.verb);
        normalize_optional(&mut self.image);
        normalize_optional(&mut self.image_url);
        trim_buttons(&mut self.buttons);
        trim_all(&mut self.windows_processes);
    }
}

impl Config {
    /// Normalizes a parsed configuration, trimming every text and dropping empty
    /// optional texts and process names.
    pub fn normalize(&mut self)
        ensures
            final(self)@ == normalized_config(old(self)@),
    {
        self.discord_application_id = trim(self.discord_application_id.as_str());
        let n = self.activities.len();
        let mut i: usize = 0;
        while i < n
            invariant
                i <= n,
                n == self.activities@.len(),
                n == old(self).activities@.len(),
                self.discord_application_id@ == trimmed(old(self).discord_application_id@),
                self.poll_seconds == old(self).poll_seconds,
                self.links == old(self).links,
                forall|j: int|
                    0 <= j < i ==> #[trigger] self.activities@[j]@ == normalized_activity(
                        old(self).activities@[j]@,
                    ),
                forall|j: int| i <= j < n ==> #[trigger] self.activities@[j] == old(self).activities@[j],
            decreases n - i,
        {
            self.activities[i].normalize();
            i += 1;
        }
        if let Some(links) = &mut self.links {
            links.trim();
        }
        assert(self@.activities =~= normalized_config(old(self)@).activities);
    }

    /// Turns a freshly parsed configuration into a usable one: normalizes it, then
    /// checks it.
    pub fn prepare(self) -> (r: Result<Config, ConfigError>)
        ensures
            match r {
                Ok(c) => c@ == normalized_config(self@) && config_check(c@) is Ok,
                Err(e) => config_check(normalized_config(self@)) == Err::<(), ConfigFault>(e@),
            },
    {
        let mut config = self;
        config.normalize();
        match config.validate() {
            Ok(()) => Ok(config),
            Err(e) => Err(e),
        }
    }
}

/// A link that is accepted: a web link of at most 512 bytes.
pub open spec fn link_ok(url: Seq<char>) -> bool {
    is_web_link(url) && utf8_len(url) <= 512
}

/// A link that may be absent, and is accepted where present.
pub open spec fn optional_link_ok(url: Option<Seq<char>>) -> bool {
    match url {
        Some(u) => link_ok(u),
        None => true,
    }
}

/// A button that is accepted: a label of 1 to 32 characters and an accepted link.
pub open spec fn button_ok(b: ButtonView) -> bool {
    label_ok(b.label) && link_ok(b.url)
}

/// At most two buttons, each accepted.
pub open spec fn buttons_ok(b: Seq<ButtonView>) -> bool {
    b.len() <= 2 && forall|j: int| 0 <= j < b.len() ==> button_ok(#[trigger] b[j])
}

/// An activity that is accepted on its own.
pub open spec fn activity_ok(a: ActivityView) -> bool {
    &&& a.name.len() > 0
    &&& a.windows_processes.len() > 0
    &&& optional_link_ok(a.image_url)
    &&& buttons_ok(a.buttons)
    &&& !a.buttons_enabled ==> a.buttons.len() == 0
}

proof fn lemma_each_button_ok(scope: ButtonScopeView, b: Seq<ButtonView>)
    requires
        each_button_check(scope, b) is Ok,
    ensures
        forall|j: int| 0 <= j < b.len() ==> button_ok(#[trigger] b[j]),
    decreases b.len(),
{
    if b.len() > 0 {
        lemma_each_button_ok(scope, b.drop_first());
        assert forall|j: int| 0 <= j < b.len() implies button_ok(#[trigger] b[j]) by {
            if j > 0 {
                assert(b[j] == b.drop_first()[j - 1]);
            }
        }
    }
}

proof fn lemma_activities_ok(acts: Seq<ActivityView>, i: int)
    requires
        0 <= i,
        activities_check_from(acts, i) is Ok,
    ensures
        forall|j: int| i <= j < acts.len() ==> #[trigger] activity_check(acts, j) is Ok,
    decreases acts.len() - i,
{
    if i < acts.len() {
        lemma_activities_ok(acts, i + 1);
    }
}

/// What an accepted configuration guarantees, whatever its contents: a numeric
/// application ID, a polling interval above zero, at least one activity, unique and
/// non-empty activity names, process names for each activity, and every link it holds
/// (shared, legacy, button or image link) a web link of at most 512 bytes, with at most
/// two buttons per list, each labelled with 1 to 32 characters.
pub proof fn law_accepted_configuration_is_sound(c: ConfigView)
    requires
        config_check(c) is Ok,
    ensures
        c.discord_application_id.len() > 0,
        all_ascii_digits(c.discord_application_id),
        c.poll_seconds > 0,
        c.activities.len() > 0,
        match c.links {
            Some(l) => {
                &&& optional_link_ok(l.repository)
                &&& optional_link_ok(l.download)
                &&& optional_link_ok(l.source)
                &&& buttons_ok(l.buttons)
            },
            None => true,
        },
        forall|i: int| 0 <= i < c.activities.len() ==> activity_ok(#[trigger] c.activities[i]),
        forall|i: int, j: int|
            0 <= i < j < c.activities.len() ==> #[trigger] c.activities[i].name
                != #[trigger] c.activities[j].name,
{
    if let Some(l) = c.links {
        assert(links_check(l) is Ok);
        if l.buttons.len() <= 2 {
            lemma_each_button_ok(ButtonScopeView::GlobalLinks, l.buttons);
        }
    }
    let acts = c.activities;
    lemma_activities_ok(acts, 0);
    assert forall|i: int| 0 <= i < acts.len() implies activity_ok(#[trigger] acts[i]) by {
        assert(activity_check(acts, i) is Ok);
        let a = acts[i];
        if a.buttons.len() <= 2 {
            lemma_each_button_ok(ButtonScopeView::Activity(a.name), a.buttons);
        }
    }
    assert forall|i: int, j: int| 0 <= i < j < acts.len() implies #[trigger] acts[i].name
        != #[trigger] acts[j].name by {
        assert(activity_check(acts, j) is Ok);
        assert(!name_seen_before(acts, j));
    }
}

/// Whether `s` has no white space to trim.
pub open spec fn is_trimmed(s: Seq<char>) -> bool {
    trimmed(s) == s
}

/// An optional text as loading leaves it: absent, or trimmed and not empty.
pub open spec fn clean_optional(o: Option<Seq<char>>) -> bool {
    match o {
        Some(t) => t.len() > 0 && is_trimmed(t),
        None => true,
    }
}

/// Buttons whose labels and links are the trimmed labels and links of `before`.
pub open spec fn buttons_trimmed_from(after: Seq<ButtonView>, before: Seq<ButtonView>) -> bool {
    &&& after.len() == before.len()
    &&& forall|j: int|
        0 <= j < after.len() ==> {
            &&& (#[trigger] after[j]).label == trimmed(before[j].label)
            &&& after[j].url == trimmed(before[j].url)
            &&& is_trimmed(after[j].label)
            &&& is_trimmed(after[j].url)
        }
}

proof fn lemma_trimmed_non_empty_clean(v: Seq<Seq<char>>)
    ensures
        forall|j: int|
            0 <= j < trimmed_non_empty(v).len() ==> (#[trigger] trimmed_non_empty(v)[j]).len() > 0
                && is_trimmed(trimmed_non_empty(v)[j]),
    decreases v.len(),
{
    if v.len() > 0 {
        lemma_trimmed_non_empty_clean(v.drop_last());
        law_trim_idempotent(v.last());
        let rest = trimmed_non_empty(v.drop_last());
        assert forall|j: int| 0 <= j < trimmed_non_empty(v).len() implies (
        #[trigger] trimmed_non_empty(v)[j]).len() > 0 && is_trimmed(trimmed_non_empty(v)[j]) by {
            if j < rest.len() {
                assert(trimmed_non_empty(v)[j] == rest[j]);
            }
        }
    }
}

proof fn lemma_optional_clean(o: Option<Seq<char>>)
    ensures
        clean_optional(normalized_optional(o)),
{
    if let Some(t) = o {
        law_trim_idempotent(t);
    }
}

proof fn lemma_buttons_trimmed(b: Seq<ButtonView>)
    ensures
        buttons_trimmed_from(trimmed_buttons(b), b),
{
    assert forall|j: int| 0 <= j < b.len() implies is_trimmed(trimmed(b[j].label)) && is_trimmed(
        trimmed(b[j].url),
    ) by {
        law_trim_idempotent(b[j].label);
        law_trim_idempotent(b[j].url);
    }
}

/// Loading trims every text of the configuration and keeps everything else: the
/// application ID, each activity's name, each button's label and link are their
/// trimmed input; every optional text is absent or trimmed and non-empty; every process
/// name is trimmed and non-empty; and the activities and buttons keep their number and
/// order.
pub proof fn law_loading_trims_every_text(c: ConfigView)
    ensures
        ({
            let n = normalized_config(c);
            &&& n.discord_application_id == trimmed(c.discord_application_id)
            &&& is_trimmed(n.discord_application_id)
            &&& n.poll_seconds == c.poll_seconds
            &&& n.activities.len() == c.activities.len()
            &&& forall|i: int|
                0 <= i < n.activities.len() ==> {
                    let a = #[trigger] n.activities[i];
                    let before = c.activities[i];
                    &&& a.name == trimmed(before.name)
                    &&& is_trimmed(a.name)
                    &&& clean_optional(a.display_name)
                    &&& clean_optional(a.verb)
                    &&& clean_optional(a.image)
                    &&& clean_optional(a.image_url)
                    &&& a.buttons_enabled == before.buttons_enabled
                    &&& buttons_trimmed_from(a.buttons, before.buttons)
                    &&& forall|j: int|
                        0 <= j < a.windows_processes.len() ==> (
                        #[trigger] a.windows_processes[j]).len() > 0 && is_trimmed(
                            a.windows_processes[j],
                        )
                }
            &&& match (n.links, c.links) {
                (Some(l), Some(before)) => {
                    &&& clean_optional(l.repository)
                    &&& clean_optional(l.download)
                    &&& clean_optional(l.source)
                    &&& buttons_trimmed_from(l.buttons, before.buttons)
                },
                (None, None) => true,
                _ => false,
            }
        }),
{
    let n = normalized_config(c);
    law_trim_idempotent(c.discord_application_id);
    assert forall|i: int| 0 <= i < n.activities.len() implies {
        let a = #[trigger] n.activities[i];
        let before = c.activities[i];
        &&& a.name == trimmed(before.name)
        &&& is_trimmed(a.name)
        &&& clean_optional(a.display_name)
        &&& clean_optional(a.verb)
        &&& clean_optional(a.image)
        &&& clean_optional(a.image_url)
        &&& a.buttons_enabled == before.buttons_enabled
        &&& buttons_trimmed_from(a.buttons, before.buttons)
        &&& forall|j: int|
            0 <= j < a.windows_processes.len() ==> (#[trigger] a.windows_processes[j]).len() > 0
                && is_trimmed(a.windows_processes[j])
    } by {
        let before = c.activities[i];
        law_trim_idempotent(before.name);
        lemma_optional_clean(before.display_name);
        lemma_optional_clean(before.verb);
        lemma_optional_clean(before.image);
        lemma_optional_clean(before.image_url);
        lemma_buttons_trimmed(before.buttons);
        lemma_trimmed_non_empty_clean(before.windows_processes);
    }
    if let Some(before) = c.links {
        lemma_optional_clean(before.repository);
        lemma_optional_clean(before.download);
        lemma_optional_clean(before.source);
        lemma_buttons_trimmed(before.buttons);
    }
}

} // verus!
