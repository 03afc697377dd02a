//! The editor's selection-controls menu: which entries it lists, in which
//! order, and which of them are disabled, given the menu's options and the
//! editor's state; and where the toolbar places the control.
use vstd::prelude::*;

verus! {

/// Which optional groups of entries the menu lists.
#[derive(Debug, Clone, Copy, PartialEq, Eq, Structural)]
pub struct SelectionControlsMenuOptions {
    pub include_agent_thread: bool,
    pub include_navigation: bool,
    pub include_diagnostics: bool,
    pub include_diff_hunks: bool,
    pub include_line_move_actions: bool,
    pub include_duplicate_selection: bool,
}

impl SelectionControlsMenuOptions {
    /// The selection entries alone, plus duplicating the selection.
    pub fn core_options() -> (o: Self)
        ensures
            o == (SelectionControlsMenuOptions {
                include_agent_thread: false,
                include_navigation: false,
                include_diagnostics: false,
                include_diff_hunks: false,
                include_line_move_actions: false,
                include_duplicate_selection: true,
            }),
    {
        SelectionControlsMenuOptions {
            include_agent_thread: false,
            include_navigation: false,
            include_diagnostics: false,
            include_diff_hunks: false,
            include_line_move_actions: false,
            include_duplicate_selection: true,
        }
    }

    /// Every group, as the quick action bar shows it.
    pub fn zed_quick_action_bar() -> (o: Self)
        ensures
            o == (SelectionControlsMenuOptions {
                include_agent_thread: true,
                include_navigation: true,
                include_diagnostics: true,
                include_diff_hunks: true,
                include_line_move_actions: true,
                include_duplicate_selection: true,
            }),
    {
        SelectionControlsMenuOptions {
            include_agent_thread: true,
            include_navigation: true,
            include_diagnostics: true,
            include_diff_hunks: true,
            include_line_move_actions: true,
            include_duplicate_selection: true,
        }
    }
}

/// The editor action a menu entry dispatches.
#[derive(Debug, Clone, Copy, PartialEq, Eq, Structural)]
pub enum SelectionAction {
    SelectAll,
    SelectNext,
    SelectLargerSyntaxNode,
    SelectSmallerSyntaxNode,
    AddSelectionAbove,
    AddSelectionBelow,
    AddSelectionToThread,
    ToggleOutline,
    ToggleGoToLine,
    GoToDiagnostic,
    GoToPreviousDiagnostic,
    GoToHunk,
    GoToPreviousHunk,
    MoveLineUp,
    MoveLineDown,
    DuplicateLineDown,
}

/// One line of the menu.
#[derive(Debug, Clone, Copy)]
pub enum MenuEntry {
    Separator,
    Action { label: &'static str, action: SelectionAction, disabled: bool },
}

/// A menu line as text and values.
pub enum MenuLine {
    Separator,
    Action { label: Seq<char>, action: SelectionAction, disabled: bool },
}

impl MenuEntry {
    pub open spec fn line(self) -> MenuLine {
        match self {
            MenuEntry::Separator => MenuLine::Separator,
            MenuEntry::Action { label, action, disabled } => MenuLine::Action { label: label@, action, disabled },
        }
    }
}

/// The lines of a list of entries.
pub open spec fn menu_lines(entries: Seq<MenuEntry>) -> Seq<MenuLine> {
    entries.map_values(|e: MenuEntry| e.line())
}

pub open spec fn act(label: Seq<char>, action: SelectionAction) -> MenuLine {
    MenuLine::Action { label, action, disabled: false }
}

/// The entries every menu starts with.
pub open spec fn selection_lines() -> Seq<MenuLine> {
    seq![
        act("Select All"@, SelectionAction::SelectAll),
        act("Select Next Occurrence"@, SelectionAction::SelectNext),
        act("Expand Selection"@, SelectionAction::SelectLargerSyntaxNode),
        act("Shrink Selection"@, SelectionAction::SelectSmallerSyntaxNode),
        act("Add Cursor Above"@, SelectionAction::AddSelectionAbove),
        act("Add Cursor Below"@, SelectionAction::AddSelectionBelow),
    ]
}

/// A group's lines when it is shown, else nothing.
pub open spec fn group(shown: bool, lines: Seq<MenuLine>) -> Seq<MenuLine> {
    if shown {
        lines
    } else {
        Seq::empty()
    }
}

/// The whole menu. The agent entry needs the agent group and AI not
/// disabled, and is disabled without a non-empty selection; the hunk entries
/// are disabled when the buffer has no diff hunks; each group but the last
/// starts with a separator.
pub open spec fn menu_spec(
    options: SelectionControlsMenuOptions,
    has_selection: bool,
    buffer_has_diff_hunks: bool,
    disable_ai: bool,
) -> Seq<MenuLine> {
    selection_lines() + group(
        options.include_agent_thread && !disable_ai,
        seq![
            MenuLine::Separator,
            MenuLine::Action {
                label: "Add to Agent Thread"@,
                action: SelectionAction::AddSelectionToThread,
                disabled: !has_selection,
            },
        ],
    ) + group(
        options.include_navigation,
        seq![
            MenuLine::Separator,
            act("Go to Symbol"@, SelectionAction::ToggleOutline),
            act("Go to Line/Column"@, SelectionAction::ToggleGoToLine),
        ],
    ) + group(
        options.include_diagnostics,
        seq![
            MenuLine::Separator,
            act("Next Problem"@, SelectionAction::GoToDiagnostic),
            act("Previous Problem"@, SelectionAction::GoToPreviousDiagnostic),
        ],
    ) + group(
        options.include_diff_hunks,
        seq![
            MenuLine::Separator,
            MenuLine::Action {
                label: "Next Hunk"@,
                action: SelectionAction::GoToHunk,
                disabled: !buffer_has_diff_hunks,
            },
            MenuLine::Action {
                label: "Previous Hunk"@,
                action: SelectionAction::GoToPreviousHunk,
                disabled: !buffer_has_diff_hunks,
            },
        ],
    ) + group(
        options.include_line_move_actions,
        seq![
            MenuLine::Separator,
            act("Move Line Up"@, SelectionAction::MoveLineUp),
            act("Move Line Down"@, SelectionAction::MoveLineDown),
        ],
    ) + group(
        options.include_duplicate_selection,
        seq![act("Duplicate Selection"@, SelectionAction::DuplicateLineDown)],
    )
}

fn push_action(entries: &mut Vec<MenuEntry>, label: &'static str, action: SelectionAction, disabled: bool)
    ensures
        menu_lines(final(entries)@) == menu_lines(old(entries)@).push(
            MenuLine::Action { label: label@, action, disabled },
        ),
{
    entries.push(MenuEntry::Action { label, action, disabled });
    proof {
        assert(menu_lines(entries@) =~= menu_lines(old(entries)@).push(
            MenuLine::Action { label: label@, action, disabled },
        ));
    }
}

fn push_separator(entries: &mut Vec<MenuEntry>)
    ensures
        menu_lines(final(entries)@) == menu_lines(old(entries)@).push(MenuLine::Separator),
{
    entries.push(MenuEntry::Separator);
    proof {
        assert(menu_lines(entries@) =~= menu_lines(old(entries)@).push(MenuLine::Separator));
    }
}

/// Append a group of entries when it is shown: a separator (when the group
/// has one) and its actions.
fn push_group(
    entries: &mut Vec<MenuEntry>,
    shown: bool,
    separated: bool,
    first: (&'static str, SelectionAction, bool),
    second: Option<(&'static str, SelectionAction, bool)>,
)
    ensures
        menu_lines(final(entries)@) == menu_lines(old(entries)@) + group(
            shown,
            group(separated, seq![MenuLine::Separator]) + seq![
                MenuLine::Action { label: first.0@, action: first.1, disabled: first.2 },
            ] + match second {
                Some(x) => seq![MenuLine::Action { label: x.0@, action: x.1, disabled: x.2 }],
                None => Seq::empty(),
            },
        ),
{
    let ghost before = menu_lines(entries@);
    if shown {
        if separated {
            push_separator(entries);
        }
        push_action(entries, first.0, first.1, first.2);
        match second {
            Some(x) => {
                push_action(entries, x.0, x.1, x.2);
            },
            None => {},
        }
    }
    proof {
        assert(menu_lines(entries@) =~= before + group(
            shown,
            group(separated, seq![MenuLine::Separator]) + seq![
                MenuLine::Action { label: first.0@, action: first.1, disabled: first.2 },
            ] + match second {
                Some(x) => seq![MenuLine::Action { label: x.0@, action: x.1, disabled: x.2 }],
                None => Seq::empty(),
            },
        ));
    }
}

/// The menu's entries, in order. `buffer_has_diff_hunks` is whether the
/// editor's buffer has diff hunks; `disable_ai` is the user's setting.
#[verifier::rlimit(30)]
pub fn selection_controls_menu(
    options: SelectionControlsMenuOptions,
    has_selection: bool,
    buffer_has_diff_hunks: bool,
    disable_ai: bool,
) -> (entries: Vec<MenuEntry>)
    ensures
        menu_lines(entries@) == menu_spec(options, has_selection, buffer_has_diff_hunks, disable_ai),
{
    let mut entries: Vec<MenuEntry> = Vec::new();
    proof {
        assert(menu_lines(entries@) =~= Seq::<MenuLine>::empty());
    }
    push_group(
        &mut entries,
        true,
        false,
        ("Select All", SelectionAction::SelectAll, false),
        Some(("Select Next Occurrence", SelectionAction::SelectNext, false)),
    );
    push_group(
        &mut entries,
        true,
        false,
        ("Expand Selection", SelectionAction::SelectLargerSyntaxNode, false),
        Some(("Shrink Selection", SelectionAction::SelectSmallerSyntaxNode, false)),
    );
    push_group(
        &mut entries,
        true,
        false,
        ("Add Cursor Above", SelectionAction::AddSelectionAbove, false),
        Some(("Add Cursor Below", SelectionAction::AddSelectionBelow, false)),
    );
    let ghost s0 = menu_lines(entries@);
    proof {
        assert(s0 =~= selection_lines());
    }
    let has_diff_hunks = options.include_diff_hunks && buffer_has_diff_hunks;
    push_group(
        &mut entries,
        options.include_agent_thread && !disable_ai,
        true,
        ("Add to Agent Thread", SelectionAction::AddSelectionToThread, !has_selection),
        None,
    );
    let ghost s1 = menu_lines(entries@);
    push_group(
        &mut entries,
        options.include_navigation,
        true,
        ("Go to Symbol", SelectionAction::ToggleOutline, false),
        Some(("Go to Line/Column", SelectionAction::ToggleGoToLine, false)),
    );
    let ghost s2 = menu_lines(entries@);
    push_group(
        &mut entries,
        options.include_diagnostics,
        true,
        ("Next Problem", SelectionAction::GoToDiagnostic, false),
        Some(("Previous Problem", SelectionAction::GoToPreviousDiagnostic, false)),
    );
    let ghost s3 = menu_lines(entries@);
    push_group(
        &mut entries,
        options.include_diff_hunks,
        true,
        ("Next Hunk", SelectionAction::GoToHunk, !has_diff_hunks),
        Some(("Previous Hunk", SelectionAction::GoToPreviousHunk, !has_diff_hunks)),
    );
    let ghost s4 = menu_lines(entries@);
    push_group(
        &mut entries,
        options.include_line_move_actions,
        true,
        ("Move Line Up", SelectionAction::MoveLineUp, false),
        Some(("Move Line Down", SelectionAction::MoveLineDown, false)),
    );
    let ghost s5 = menu_lines(entries@);
    push_group(
        &mut entries,
        options.include_duplicate_selection,
        false,
        ("Duplicate Selection", SelectionAction::DuplicateLineDown, false),
        None,
    );
    proof {
        let agent = seq![
            MenuLine::Separator,
            MenuLine::Action {
                label: "Add to Agent Thread"@,
                action: SelectionAction::AddSelectionToThread,
                disabled: !has_selection,
            },
        ];
        assert(s1 =~= s0 + group(options.include_agent_thread && !disable_ai, agent));
        assert(s2 =~= s1 + group(
            options.include_navigation,
            seq![
                MenuLine::Separator,
                act("Go to Symbol"@, SelectionAction::ToggleOutline),
                act("Go to Line/Column"@, SelectionAction::ToggleGoToLine),
            ],
        ));
        assert(s3 =~= s2 + group(
            options.include_diagnostics,
            seq![
                MenuLine::Separator,
                act("Next Problem"@, SelectionAction::GoToDiagnostic),
                act("Previous Problem"@, SelectionAction::GoToPreviousDiagnostic),
            ],
        ));
        assert(s4 =~= s3 + group(
            options.include_diff_hunks,
            seq![
                MenuLine::Separator,
                MenuLine::Action {
                    label: "Next Hunk"@,
                    action: SelectionAction::GoToHunk,
                    disabled: !buffer_has_diff_hunks,
                },
                MenuLine::Action {
                    label: "Previous Hunk"@,
                    action: SelectionAction::GoToPreviousHunk,
                    disabled: !buffer_has_diff_hunks,
                },
            ],
        ));
        assert(s5 =~= s4 + group(
            options.include_line_move_actions,
            seq![
                MenuLine::Separator,
                act("Move Line Up"@, SelectionAction::MoveLineUp),
                act("Move Line Down"@, SelectionAction::MoveLineDown),
            ],
        ));
        assert(menu_lines(entries@) =~= s5 + group(
            options.include_duplicate_selection,
            seq![act("Duplicate Selection"@, SelectionAction::DuplicateLineDown)],
        ));
    }
    entries
}

/// What the toolbar item shows: nothing without an editor, a disabled
/// placeholder when the editor turned the menu off, else the control.
#[derive(Debug, Clone, Copy, PartialEq, Eq, Structural)]
pub enum SelectionControlsState {
    NoEditor,
    Disabled,
    Shown,
}

/// Where the toolbar places the control.
#[derive(Debug, Clone, Copy, PartialEq, Eq, Structural)]
pub enum ToolbarPlacement {
    PrimaryRight,
    Hidden,
}

/// The state of the control for the active pane item: whether it is an
/// editor, and whether that editor enables the selection menu.
pub fn controls_state(is_editor: bool, menu_enabled: bool) -> (s: SelectionControlsState)
    ensures
        !is_editor ==> s == SelectionControlsState::NoEditor,
        is_editor && !menu_enabled ==> s == SelectionControlsState::Disabled,
        is_editor && menu_enabled ==> s == SelectionControlsState::Shown,
{
    if !is_editor {
        SelectionControlsState::NoEditor
    } else if !menu_enabled {
        SelectionControlsState::Disabled
    } else {
        SelectionControlsState::Shown
    }
}

/// The control sits at the primary right exactly when it is shown.
pub fn toolbar_item_location(is_editor: bool, menu_enabled: bool) -> (p: ToolbarPlacement)
    ensures
        (p == ToolbarPlacement::PrimaryRight) <==> (is_editor && menu_enabled),
{
    if is_editor && menu_enabled {
        ToolbarPlacement::PrimaryRight
    } else {
        ToolbarPlacement::Hidden
    }
}

} // verus!
