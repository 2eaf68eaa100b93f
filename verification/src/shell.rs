//! The panels of the shell: how large they may be, and when they fold.
//!
//! Sizes are counted in thousandths of a point.
use crate::pages::{greatest, least};
use vstd::prelude::*;

verus! {

/// The usual height of the bar at the top.
pub const FOREHEAD_DEFAULT_HEIGHT: i64 = 82_000;

/// The least height of the bar at the top.
pub const FOREHEAD_MIN_HEIGHT: i64 = 64_000;

/// The greatest height of the bar at the top.
pub const FOREHEAD_MAX_HEIGHT: i64 = 168_000;

/// The least height of the editor at the bottom.
pub const EDITOR_MIN_HEIGHT: i64 = 112_000;

/// The greatest height of the editor at the bottom.
pub const EDITOR_MAX_HEIGHT: i64 = 420_000;

/// What is left of the height for the arrangement.
pub const MIDDLE_MIN_HEIGHT: i64 = 180_000;

/// The least useful width of the assets.
pub const ASSET_PANEL_MIN_WIDTH: i64 = 190_000;

/// The usual width of the signal.
pub const SIGNAL_PANEL_WIDTH: i64 = 286_000;

/// The least useful width of the signal.
pub const SIGNAL_PANEL_MIN_WIDTH: i64 = 250_000;

/// The greatest width of the signal.
pub const SIGNAL_PANEL_MAX_WIDTH: i64 = 380_000;

/// The width of a folded panel.
pub const COLLAPSED_PANEL_WIDTH: i64 = 28_000;

/// How far a folded panel is pulled before it unfolds.
pub const COLLAPSED_PANEL_PULL_THRESHOLD: i64 = 8_000;

/// What is left of the width for the arrangement.
pub const MIDDLE_WORKSPACE_MIN_WIDTH: i64 = 348_000;

/// The greatest widths of the assets and the signal, in a shell of this width. The assets
/// are `asset_width` wide when they are unfolded.
pub open spec fn panel_widths(
    shell_width: int,
    asset_width: int,
    assets_expanded: bool,
    signal_expanded: bool,
) -> (int, int) {
    let signal_reserve = if signal_expanded {
        SIGNAL_PANEL_MIN_WIDTH as int
    } else {
        COLLAPSED_PANEL_WIDTH as int
    };
    let assets_reserve = if assets_expanded {
        asset_width
    } else {
        COLLAPSED_PANEL_WIDTH as int
    };
    let wanted = shell_width * 285 / 1_000;
    (
        greatest(
            least(asset_width, shell_width - signal_reserve - MIDDLE_WORKSPACE_MIN_WIDTH),
            COLLAPSED_PANEL_WIDTH as int,
        ),
        greatest(
            least(
                least(greatest(wanted, SIGNAL_PANEL_MIN_WIDTH as int), SIGNAL_PANEL_MAX_WIDTH as int),
                shell_width - assets_reserve - MIDDLE_WORKSPACE_MIN_WIDTH,
            ),
            COLLAPSED_PANEL_WIDTH as int,
        ),
    )
}

fn smaller(left: i128, right: i128) -> (result: i128)
    ensures
        result == least(left as int, right as int),
{
    if left <= right {
        left
    } else {
        right
    }
}

fn larger(left: i128, right: i128) -> (result: i128)
    ensures
        result == greatest(left as int, right as int),
{
    if left >= right {
        left
    } else {
        right
    }
}

/// The greatest widths of the assets and the signal.
pub fn side_panel_max_widths(
    shell_width: i64,
    asset_width: i64,
    assets_expanded: bool,
    signal_expanded: bool,
) -> (widths: (i64, i64))
    ensures
        (widths.0 as int, widths.1 as int) == panel_widths(
            shell_width as int,
            asset_width as int,
            assets_expanded,
            signal_expanded,
        ),
{
    let signal_reserve: i128 = if signal_expanded {
        SIGNAL_PANEL_MIN_WIDTH as i128
    } else {
        COLLAPSED_PANEL_WIDTH as i128
    };
    let assets_reserve: i128 = if assets_expanded {
        asset_width as i128
    } else {
        COLLAPSED_PANEL_WIDTH as i128
    };
    let folded: i128 = COLLAPSED_PANEL_WIDTH as i128;
    let wanted: i128 = if shell_width < 0 {
        0
    } else {
        shell_width as i128 * 285 / 1_000
    };
    let assets: i128 = smaller(
        asset_width as i128,
        shell_width as i128 - signal_reserve - MIDDLE_WORKSPACE_MIN_WIDTH as i128,
    );
    let signal: i128 = smaller(
        smaller(
            larger(wanted, SIGNAL_PANEL_MIN_WIDTH as i128),
            SIGNAL_PANEL_MAX_WIDTH as i128,
        ),
        shell_width as i128 - assets_reserve - MIDDLE_WORKSPACE_MIN_WIDTH as i128,
    );
    (larger(assets, folded) as i64, larger(signal, folded) as i64)
}

/// The greatest height of the bar at the top, in a shell of this height.
pub open spec fn forehead_limit(shell_height: int) -> int {
    least(
        FOREHEAD_MAX_HEIGHT as int,
        greatest(
            shell_height - EDITOR_MIN_HEIGHT - MIDDLE_MIN_HEIGHT,
            FOREHEAD_MIN_HEIGHT as int,
        ),
    )
}

/// The greatest height of the bar at the top.
pub fn forehead_max_height(shell_height: i64) -> (height: i64)
    ensures
        height == forehead_limit(shell_height as int),
{
    smaller(
        FOREHEAD_MAX_HEIGHT as i128,
        larger(
            shell_height as i128 - EDITOR_MIN_HEIGHT as i128 - MIDDLE_MIN_HEIGHT as i128,
            FOREHEAD_MIN_HEIGHT as i128,
        ),
    ) as i64
}

/// The greatest height of the editor at the bottom, below a bar that leaves this height.
pub open spec fn chin_limit(remaining_height: int) -> int {
    least(
        EDITOR_MAX_HEIGHT as int,
        greatest(remaining_height - MIDDLE_MIN_HEIGHT, EDITOR_MIN_HEIGHT as int),
    )
}

/// The greatest height of the editor at the bottom.
pub fn chin_max_height(remaining_height: i64) -> (height: i64)
    ensures
        height == chin_limit(remaining_height as int),
{
    smaller(
        EDITOR_MAX_HEIGHT as i128,
        larger(
            remaining_height as i128 - MIDDLE_MIN_HEIGHT as i128,
            EDITOR_MIN_HEIGHT as i128,
        ),
    ) as i64
}

/// Whether a panel of this width folds: it is narrower than it is useful, by more than
/// half a point.
pub fn should_collapse_column(width: i64, useful_minimum: i64) -> (folds: bool)
    ensures
        folds == (width + 500 < useful_minimum),
{
    (width as i128 + 500) < useful_minimum as i128
}

/// Whether a folded panel of this width unfolds.
pub fn should_expand_collapsed_column(width: i64) -> (unfolds: bool)
    ensures
        unfolds == (width > COLLAPSED_PANEL_WIDTH + COLLAPSED_PANEL_PULL_THRESHOLD),
{
    width > COLLAPSED_PANEL_WIDTH + COLLAPSED_PANEL_PULL_THRESHOLD
}

/// Which panels are unfolded.
#[derive(Clone, Copy, Debug, PartialEq, Eq, Structural)]
pub struct ShellPanels {
    pub assets_expanded: bool,
    pub signal_expanded: bool,
}

/// There is no room for both panels beside the arrangement.
pub open spec fn narrow(shell_width: int) -> bool {
    shell_width < ASSET_PANEL_MIN_WIDTH + SIGNAL_PANEL_MIN_WIDTH + MIDDLE_WORKSPACE_MIN_WIDTH
}

/// What the user does with the panels.
#[derive(Clone, Copy, Debug)]
pub struct PanelInput {
    pub shell_width: i64,
    pub asset_width: i64,
    /// The title of the unfolded assets was clicked.
    pub fold_assets: bool,
    /// The folded assets were clicked.
    pub open_assets: bool,
    /// The width of the folded assets.
    pub folded_width: i64,
    /// The folded signal was clicked.
    pub open_signal: bool,
    /// The width of the unfolded signal.
    pub signal_width: i64,
}

/// The unfolded assets fit.
pub open spec fn assets_fit(panels: ShellPanels, input: PanelInput) -> bool {
    panels.assets_expanded && panel_widths(
        input.shell_width as int,
        input.asset_width as int,
        panels.assets_expanded,
        panels.signal_expanded,
    ).0 >= input.asset_width
}

/// The panels after a look at the assets.
pub open spec fn after_assets(panels: ShellPanels, input: PanelInput) -> ShellPanels {
    if assets_fit(panels, input) {
        ShellPanels { assets_expanded: !input.fold_assets, ..panels }
    } else if input.open_assets || input.folded_width > COLLAPSED_PANEL_WIDTH
        + COLLAPSED_PANEL_PULL_THRESHOLD {
        ShellPanels {
            assets_expanded: true,
            signal_expanded: panels.signal_expanded && !narrow(input.shell_width as int),
        }
    } else {
        ShellPanels { assets_expanded: false, ..panels }
    }
}

/// The panels after a look at the signal.
pub open spec fn after_signal(panels: ShellPanels, input: PanelInput) -> ShellPanels {
    if panels.signal_expanded {
        ShellPanels {
            signal_expanded: !(input.signal_width + 500 < SIGNAL_PANEL_MIN_WIDTH),
            ..panels
        }
    } else if input.open_signal {
        ShellPanels {
            assets_expanded: panels.assets_expanded && !narrow(input.shell_width as int),
            signal_expanded: true,
        }
    } else {
        panels
    }
}

impl ShellPanels {
    /// Both panels are unfolded.
    pub fn new() -> (panels: Self)
        ensures
            panels == (ShellPanels { assets_expanded: true, signal_expanded: true }),
    {
        ShellPanels { assets_expanded: true, signal_expanded: true }
    }

    /// Whether the assets are shown unfolded.
    pub fn shows_assets(&self, input: &PanelInput) -> (shown: bool)
        ensures
            shown == assets_fit(*self, *input),
    {
        let widths = side_panel_max_widths(
            input.shell_width,
            input.asset_width,
            self.assets_expanded,
            self.signal_expanded,
        );
        self.assets_expanded && widths.0 >= input.asset_width
    }

    /// One look at the panels: first the assets, then the signal.
    pub fn arrange(&mut self, input: &PanelInput)
        ensures
            *final(self) == after_signal(after_assets(*old(self), *input), *input),
    {
        let tight = input.shell_width < ASSET_PANEL_MIN_WIDTH + SIGNAL_PANEL_MIN_WIDTH
            + MIDDLE_WORKSPACE_MIN_WIDTH;
        if self.shows_assets(input) {
            self.assets_expanded = !input.fold_assets;
        } else if input.open_assets || should_expand_collapsed_column(input.folded_width) {
            self.assets_expanded = true;
            self.signal_expanded = self.signal_expanded && !tight;
        } else {
            self.assets_expanded = false;
        }
        if self.signal_expanded {
            self.signal_expanded = !should_collapse_column(
                input.signal_width,
                SIGNAL_PANEL_MIN_WIDTH,
            );
        } else if input.open_signal {
            self.assets_expanded = self.assets_expanded && !tight;
            self.signal_expanded = true;
        }
    }
}

/// Whatever panels are unfolded, the arrangement keeps its width, as long as the folded
/// panels leave it that width at all.
pub proof fn panels_leave_room(
    shell_width: int,
    asset_width: int,
    assets_expanded: bool,
    signal_expanded: bool,
)
    requires
        COLLAPSED_PANEL_WIDTH <= asset_width,
        shell_width >= asset_width + SIGNAL_PANEL_MIN_WIDTH + MIDDLE_WORKSPACE_MIN_WIDTH,
    ensures
        ({
            let (assets, signal) = panel_widths(
                shell_width,
                asset_width,
                assets_expanded,
                signal_expanded,
            );
            let left = if assets_expanded {
                assets
            } else {
                COLLAPSED_PANEL_WIDTH as int
            };
            let right = if signal_expanded {
                signal
            } else {
                COLLAPSED_PANEL_WIDTH as int
            };
            shell_width - left - right >= MIDDLE_WORKSPACE_MIN_WIDTH
        }),
{
}

/// A shell that is high enough keeps a useful height between its two bars.
pub proof fn bars_leave_room(shell_height: int)
    requires
        shell_height >= FOREHEAD_MIN_HEIGHT + EDITOR_MIN_HEIGHT + MIDDLE_MIN_HEIGHT,
    ensures
        ({
            let forehead = forehead_limit(shell_height);
            let chin = chin_limit(shell_height - forehead);
            &&& forehead >= FOREHEAD_MIN_HEIGHT
            &&& chin >= EDITOR_MIN_HEIGHT
            &&& shell_height - forehead - chin >= MIDDLE_MIN_HEIGHT
        }),
{
}

/// In a shell without room for both panels, opening one folds the other.
pub proof fn one_panel_in_a_narrow_shell(panels: ShellPanels, input: PanelInput)
    requires
        narrow(input.shell_width as int),
        !panels.assets_expanded || !panels.signal_expanded,
        input.asset_width >= ASSET_PANEL_MIN_WIDTH,
    ensures
        ({
            let after = after_signal(after_assets(panels, input), input);
            !after.assets_expanded || !after.signal_expanded
        }),
{
}

/// In a shell that is wide enough the assets are as wide as the user made them, and the signal
/// takes 28.5 percent of the width, 250 points at least and 380 at most.
pub proof fn panels_are_as_wide_as_they_should_be(
    shell_width: int,
    asset_width: int,
    assets_expanded: bool,
    signal_expanded: bool,
)
    requires
        28_000 <= asset_width,
        shell_width >= asset_width + 380_000 + 348_000,
    ensures
        ({
            let (assets, signal) = panel_widths(
                shell_width,
                asset_width,
                assets_expanded,
                signal_expanded,
            );
            &&& assets == asset_width
            &&& 250_000 <= signal <= 380_000
            &&& 250_000_000 <= 285 * shell_width <= 380_000_000 ==> 1_000 * signal <= 285
                * shell_width < 1_000 * (signal + 1)
            &&& 285 * shell_width > 380_000_000 ==> signal == 380_000
            &&& 285 * shell_width < 250_000_000 ==> signal == 250_000
        }),
{
}

/// The bar above takes no more than 168 points, and leaves 112 for the editor and 180 for the
/// middle as long as it can itself have 64; the editor below takes no more than 420, and leaves
/// the middle its 180 as long as it can have its 112.
pub proof fn bars_take_what_is_left(height: int)
    ensures
        forehead_limit(height) <= 168_000,
        356_000 <= height <= 460_000 ==> forehead_limit(height) == height - 292_000,
        height < 356_000 ==> forehead_limit(height) == 64_000,
        height > 460_000 ==> forehead_limit(height) == 168_000,
        292_000 <= height <= 600_000 ==> chin_limit(height) == height - 180_000,
        height < 292_000 ==> chin_limit(height) == 112_000,
        height > 600_000 ==> chin_limit(height) == 420_000,
        narrow(height) <==> height < 788_000,
{
}

/// The assets fold when their title is clicked and unfold when they are clicked or pulled by more
/// than eight points; the signal folds when it is pushed below its least width and unfolds when it
/// is clicked. In a shell that is too narrow for both, the one that unfolds folds the other.
pub proof fn panels_fold_and_unfold(panels: ShellPanels, input: PanelInput)
    ensures
        ({
            let after = after_assets(panels, input);
            let then = after_signal(panels, input);
            let room = panel_widths(
                input.shell_width as int,
                input.asset_width as int,
                panels.assets_expanded,
                panels.signal_expanded,
            ).0;
            &&& assets_fit(panels, input) <==> panels.assets_expanded && input.asset_width <= room
            &&& assets_fit(panels, input) ==> after.assets_expanded == !input.fold_assets
                && after.signal_expanded == panels.signal_expanded
            &&& !assets_fit(panels, input) && (input.open_assets || input.folded_width > 36_000)
                ==> after.assets_expanded && after.signal_expanded == (panels.signal_expanded
                && input.shell_width >= 788_000)
            &&& !assets_fit(panels, input) && !input.open_assets && input.folded_width <= 36_000
                ==> !after.assets_expanded && after.signal_expanded == panels.signal_expanded
            &&& panels.signal_expanded ==> then.assets_expanded == panels.assets_expanded && (
            then.signal_expanded <==> input.signal_width + 500 >= 250_000)
            &&& !panels.signal_expanded && input.open_signal ==> then.signal_expanded
                && then.assets_expanded == (panels.assets_expanded && input.shell_width >= 788_000)
            &&& !panels.signal_expanded && !input.open_signal ==> then == panels
        }),
{
}

} // verus!
