//! The installer wizard's pages: how its buttons move between them, which
//! controls each page shows, and the texts at the top of each page.
use vstd::prelude::*;
use crate::installer::i18n::InstallerStrings;

verus! {

/// The license agreement check box.
pub const ID_AGREE: u32 = 101;

/// The back button.
pub const ID_BACK: u32 = 201;

/// The next (install, finish, uninstall) button.
pub const ID_NEXT: u32 = 202;

/// The cancel button.
pub const ID_CANCEL: u32 = 203;

/// The first page (license), the last page (done), and the page shown while
/// files are copied.
pub const FIRST_STEP: usize = 1;

pub const INSTALLING_STEP: usize = 4;

pub const LAST_STEP: usize = 5;

/// Where the wizard is: its page (1: license, 2: folder, 3: options,
/// 4: installing, 5: done) and whether it runs as the uninstaller.
#[derive(Debug, Clone, Copy, PartialEq, Eq, Structural)]
pub struct WizardState {
    pub step: usize,
    pub is_uninstaller: bool,
}

/// What the wizard's window has to do after a command.
#[derive(Debug, Clone, Copy, PartialEq, Eq, Structural)]
pub enum WizardAction {
    /// Nothing.
    Nothing,
    /// Show and hide the controls for the current page.
    UpdateControls,
    /// Show and hide the controls for the current page, and redraw.
    Refresh,
    /// Remove the program, tell the user so, and close.
    Uninstall,
    /// Show the installing page, install, then show the last page.
    Install,
    /// Close the wizard, starting the program first when `launch` is set.
    Finish { launch: bool },
    /// Close the wizard.
    Close,
}

/// The state of a fresh wizard.
pub open spec fn initial_wizard(is_uninstaller: bool) -> WizardState {
    WizardState { step: FIRST_STEP, is_uninstaller }
}

/// The wizard's answer to the command of control `id`; `launch_checked`
/// is the state of the "launch now" check box.
///
/// The agreement box only updates the controls. Back goes one page back
/// from any page after the first. Next uninstalls in the uninstaller;
/// otherwise it goes from the license to the folder page, from there to the
/// options, from the options through installing to the last page, and on
/// the last page finishes. Cancel closes.
pub open spec fn wizard_transition(s: WizardState, id: u32, launch_checked: bool) -> (
    WizardState,
    WizardAction,
) {
    if id == ID_AGREE {
        (s, WizardAction::UpdateControls)
    } else if id == ID_BACK {
        if s.step > 1 {
            (WizardState { step: (s.step - 1) as usize, ..s }, WizardAction::Refresh)
        } else {
            (s, WizardAction::Nothing)
        }
    } else if id == ID_NEXT {
        if s.is_uninstaller {
            (s, WizardAction::Uninstall)
        } else if s.step == 1 {
            (WizardState { step: 2, ..s }, WizardAction::Refresh)
        } else if s.step == 2 {
            (WizardState { step: 3, ..s }, WizardAction::Refresh)
        } else if s.step == 3 {
            (WizardState { step: LAST_STEP, ..s }, WizardAction::Install)
        } else if s.step == LAST_STEP {
            (s, WizardAction::Finish { launch: launch_checked })
        } else {
            (s, WizardAction::Refresh)
        }
    } else if id == ID_CANCEL {
        (s, WizardAction::Close)
    } else {
        (s, WizardAction::Nothing)
    }
}

/// Answers a command; see [`wizard_transition`].
pub fn wizard_command(s: WizardState, id: u32, launch_checked: bool) -> (r: (
    WizardState,
    WizardAction,
))
    ensures
        r == wizard_transition(s, id, launch_checked),
{
    if id == ID_AGREE {
        (s, WizardAction::UpdateControls)
    } else if id == ID_BACK {
        if s.step > 1 {
            (WizardState { step: s.step - 1, ..s }, WizardAction::Refresh)
        } else {
            (s, WizardAction::Nothing)
        }
    } else if id == ID_NEXT {
        if s.is_uninstaller {
            (s, WizardAction::Uninstall)
        } else if s.step == 1 {
            (WizardState { step: 2, ..s }, WizardAction::Refresh)
        } else if s.step == 2 {
            (WizardState { step: 3, ..s }, WizardAction::Refresh)
        } else if s.step == 3 {
            (WizardState { step: LAST_STEP, ..s }, WizardAction::Install)
        } else if s.step == LAST_STEP {
            (s, WizardAction::Finish { launch: launch_checked })
        } else {
            (s, WizardAction::Refresh)
        }
    } else if id == ID_CANCEL {
        (s, WizardAction::Close)
    } else {
        (s, WizardAction::Nothing)
    }
}

/// The caption of the next button.
#[derive(Debug, Clone, Copy, PartialEq, Eq, Structural)]
pub enum NextLabel {
    Next,
    Install,
    Finish,
    Uninstall,
}

/// Which controls a page shows. `None` leaves a control as it is.
#[derive(Debug, Clone, Copy, PartialEq, Eq, Structural)]
pub struct ControlVisibility {
    pub agree: bool,
    pub directory: bool,
    pub browse: bool,
    pub desktop: bool,
    pub start_menu: bool,
    pub startup: bool,
    pub launch: bool,
    pub back_shown: Option<bool>,
    pub back_enabled: Option<bool>,
    pub next_enabled: Option<bool>,
    pub next_label: NextLabel,
}

/// The controls of the current page: the uninstaller hides all options and
/// the back button and offers to uninstall; otherwise each page shows its
/// own options, back works between the first and the installing page, and
/// next needs the license accepted on the first page.
pub open spec fn visibility_for(s: WizardState, agreed: bool) -> ControlVisibility {
    if s.is_uninstaller {
        ControlVisibility {
            agree: false,
            directory: false,
            browse: false,
            desktop: false,
            start_menu: false,
            startup: false,
            launch: false,
            back_shown: Some(false),
            back_enabled: None,
            next_enabled: None,
            next_label: NextLabel::Uninstall,
        }
    } else {
        ControlVisibility {
            agree: s.step == 1,
            directory: s.step == 2,
            browse: s.step == 2,
            desktop: s.step == 3,
            start_menu: s.step == 3,
            startup: s.step == 3,
            launch: s.step == LAST_STEP,
            back_shown: None,
            back_enabled: Some(s.step > 1 && s.step < LAST_STEP),
            next_enabled: Some(
                if s.step == 1 {
                    agreed
                } else {
                    true
                },
            ),
            next_label: if s.step == 3 {
                NextLabel::Install
            } else if s.step == LAST_STEP {
                NextLabel::Finish
            } else {
                NextLabel::Next
            },
        }
    }
}

/// The controls of the current page; see [`visibility_for`].
pub fn control_visibility(s: WizardState, agreed: bool) -> (v: ControlVisibility)
    ensures
        v == visibility_for(s, agreed),
{
    if s.is_uninstaller {
        ControlVisibility {
            agree: false,
            directory: false,
            browse: false,
            desktop: false,
            start_menu: false,
            startup: false,
            launch: false,
            back_shown: Some(false),
            back_enabled: None,
            next_enabled: None,
            next_label: NextLabel::Uninstall,
        }
    } else {
        ControlVisibility {
            agree: s.step == 1,
            directory: s.step == 2,
            browse: s.step == 2,
            desktop: s.step == 3,
            start_menu: s.step == 3,
            startup: s.step == 3,
            launch: s.step == LAST_STEP,
            back_shown: None,
            back_enabled: Some(s.step > 1 && s.step < LAST_STEP),
            next_enabled: Some(
                if s.step == 1 {
                    agreed
                } else {
                    true
                },
            ),
            next_label: if s.step == 3 {
                NextLabel::Install
            } else if s.step == LAST_STEP {
                NextLabel::Finish
            } else {
                NextLabel::Next
            },
        }
    }
}

/// The text of the next button for a caption.
pub fn next_label_text(strings: &InstallerStrings, l: NextLabel) -> (t: &'static str)
    ensures
        l == NextLabel::Next ==> t == strings.next_btn,
        l == NextLabel::Install ==> t == strings.install_btn,
        l == NextLabel::Finish ==> t == strings.finish_btn,
        l == NextLabel::Uninstall ==> t == strings.uninst_btn,
{
    match l {
        NextLabel::Next => strings.next_btn,
        NextLabel::Install => strings.install_btn,
        NextLabel::Finish => strings.finish_btn,
        NextLabel::Uninstall => strings.uninst_btn,
    }
}

/// The wizard window's title.
pub fn window_title(strings: &InstallerStrings, is_uninstaller: bool) -> (t: &'static str)
    ensures
        is_uninstaller ==> t == strings.uninst_title,
        !is_uninstaller ==> t == strings.wizard_title,
{
    if is_uninstaller {
        strings.uninst_title
    } else {
        strings.wizard_title
    }
}

/// The title and subtitle at the top of the current page.
pub fn header_texts(strings: &InstallerStrings, s: WizardState) -> (r: (&'static str, &'static str))
    ensures
        s.is_uninstaller ==> r == (strings.uninst_title, strings.uninst_prompt),
        !s.is_uninstaller && s.step == 1 ==> r.0 == strings.step1_title && r.1@
            == "ETDPicker v1.0.0"@,
        !s.is_uninstaller && s.step == 2 ==> r == (strings.step2_title, strings.step2_desc),
        !s.is_uninstaller && s.step == 3 ==> r == (strings.step3_title, strings.step3_desc),
        !s.is_uninstaller && s.step == 4 ==> r == (strings.step4_title, strings.step4_desc),
        !s.is_uninstaller && s.step == 5 ==> r == (strings.step5_title, strings.step5_desc),
        !s.is_uninstaller && !(1 <= s.step <= 5) ==> r.0 == strings.wizard_title && r.1@
            == ""@,
{
    if s.is_uninstaller {
        (strings.uninst_title, strings.uninst_prompt)
    } else if s.step == 1 {
        (strings.step1_title, "ETDPicker v1.0.0")
    } else if s.step == 2 {
        (strings.step2_title, strings.step2_desc)
    } else if s.step == 3 {
        (strings.step3_title, strings.step3_desc)
    } else if s.step == 4 {
        (strings.step4_title, strings.step4_desc)
    } else if s.step == 5 {
        (strings.step5_title, strings.step5_desc)
    } else {
        (strings.wizard_title, "")
    }
}

/// What the body of a page shows.
#[derive(Debug, Clone, Copy)]
pub enum PageBody {
    /// A text.
    Text(&'static str),
    /// The progress bar of the installing page.
    Progress,
    /// Nothing.
    Empty,
}

/// The body of the current page: the uninstall question in the
/// uninstaller, the license text, the folder and options explanations, the
/// progress bar while installing, and the closing message.
pub fn page_body(strings: &InstallerStrings, s: WizardState) -> (b: PageBody)
    ensures
        s.is_uninstaller ==> b == PageBody::Text(strings.uninst_prompt),
        !s.is_uninstaller && s.step == 1 ==> b == PageBody::Text(strings.step1_desc),
        !s.is_uninstaller && s.step == 2 ==> b == PageBody::Text(strings.step2_desc),
        !s.is_uninstaller && s.step == 3 ==> b == PageBody::Text(strings.step3_desc),
        !s.is_uninstaller && s.step == 4 ==> b == PageBody::Progress,
        !s.is_uninstaller && s.step == 5 ==> b == PageBody::Text(strings.step5_desc),
        !s.is_uninstaller && !(1 <= s.step <= 5) ==> b == PageBody::Empty,
{
    if s.is_uninstaller {
        PageBody::Text(strings.uninst_prompt)
    } else if s.step == 1 {
        PageBody::Text(strings.step1_desc)
    } else if s.step == 2 {
        PageBody::Text(strings.step2_desc)
    } else if s.step == 3 {
        PageBody::Text(strings.step3_desc)
    } else if s.step == 4 {
        PageBody::Progress
    } else if s.step == 5 {
        PageBody::Text(strings.step5_desc)
    } else {
        PageBody::Empty
    }
}

/// Law: every command keeps the wizard on one of its pages and keeps it in
/// the mode (installer or uninstaller) it started in.
pub proof fn lemma_wizard_stays_on_pages(s: WizardState, id: u32, launch_checked: bool)
    requires
        FIRST_STEP <= s.step <= LAST_STEP,
    ensures
        FIRST_STEP <= wizard_transition(s, id, launch_checked).0.step <= LAST_STEP,
        wizard_transition(s, id, launch_checked).0.is_uninstaller == s.is_uninstaller,
{
}

/// Law: on the license and folder pages, back undoes next.
pub proof fn lemma_back_undoes_next(s: WizardState)
    requires
        !s.is_uninstaller,
        s.step == 1 || s.step == 2,
    ensures
        wizard_transition(wizard_transition(s, ID_NEXT, false).0, ID_BACK, false).0 == s,
{
}

/// Law: the uninstaller's page never changes through next, and next always
/// uninstalls there.
pub proof fn lemma_uninstaller_next(s: WizardState, launch_checked: bool)
    requires
        s.is_uninstaller,
    ensures
        wizard_transition(s, ID_NEXT, launch_checked) == (s, WizardAction::Uninstall),
{
}

/// Law: next is offered on the license page exactly when the license is
/// accepted, and always on the later pages of the installer.
pub proof fn lemma_next_needs_agreement(s: WizardState, agreed: bool)
    requires
        !s.is_uninstaller,
    ensures
        visibility_for(s, agreed).next_enabled == Some(s.step != 1 || agreed),
{
}

/// Law: cancel closes the wizard from every page, in the installer and in
/// the uninstaller alike, and changes nothing else.
pub proof fn lemma_cancel_always_closes(s: WizardState, launch_checked: bool)
    ensures
        wizard_transition(s, ID_CANCEL, launch_checked) == (s, WizardAction::Close),
{
}

/// Law: the installer goes forward through its pages only as license,
/// folder, options, then installs and lands on the last page, where next
/// finishes and starts the program exactly when the launch box is checked;
/// installing is asked for only from the options page.
pub proof fn lemma_installer_path(s: WizardState, id: u32, launch_checked: bool)
    requires
        !s.is_uninstaller,
        FIRST_STEP <= s.step <= LAST_STEP,
    ensures
        s.step == 1 ==> wizard_transition(s, ID_NEXT, launch_checked).0.step == 2,
        s.step == 2 ==> wizard_transition(s, ID_NEXT, launch_checked).0.step == 3,
        s.step == 3 ==> wizard_transition(s, ID_NEXT, launch_checked) == (WizardState {
            step: 5,
            ..s
        }, WizardAction::Install),
        s.step == 5 ==> wizard_transition(s, ID_NEXT, launch_checked) == (s, WizardAction::Finish {
            launch: launch_checked,
        }),
        (wizard_transition(s, id, launch_checked).1 == WizardAction::Install) <==> (id == ID_NEXT
            && s.step == 3),
        (wizard_transition(s, id, launch_checked).1 is Finish) <==> (id == ID_NEXT && s.step == 5),
        id == ID_BACK && s.step > 1 ==> wizard_transition(s, id, launch_checked).0.step == s.step - 1,
        id == ID_BACK && s.step == 1 ==> wizard_transition(s, id, launch_checked) == (s, WizardAction::Nothing),
{
}

/// Law: the uninstaller shows none of the installer's options, hides back,
/// and offers to uninstall on its one page.
pub proof fn lemma_uninstaller_controls(s: WizardState, agreed: bool)
    requires
        s.is_uninstaller,
    ensures
        ({
            let v = visibility_for(s, agreed);
            &&& !v.agree && !v.directory && !v.browse && !v.desktop && !v.start_menu && !v.startup
                && !v.launch
            &&& v.back_shown == Some(false)
            &&& v.next_label == NextLabel::Uninstall
        }),
{
}

/// Law: on the installer's pages, each option control is shown exactly on
/// its own page (agreement on the license, folder on the folder page,
/// shortcuts and start-up on the options, launch on the last page).
pub proof fn lemma_page_controls(s: WizardState, agreed: bool)
    requires
        !s.is_uninstaller,
    ensures
        ({
            let v = visibility_for(s, agreed);
            &&& v.agree <==> s.step == 1
            &&& (v.directory && v.browse) <==> s.step == 2
            &&& (v.desktop && v.start_menu && v.startup) <==> s.step == 3
            &&& v.launch <==> s.step == 5
            &&& v.back_enabled == Some(1 < s.step < 5)
        }),
{
}

} // verus!
