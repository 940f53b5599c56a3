//! The browser's colour palettes and its style sheet.
use vstd::prelude::*;

verus! {

/// Colours of the dark theme.
pub const DARK_PALETTE: &'static str = r#"
    @define-color axys_bg #242424;
    @define-color axys_fg #e9ebec;
    @define-color axys_accent #4c8bf5;
"#;

/// Colours of the light theme.
pub const LIGHT_PALETTE: &'static str = r#"
    @define-color axys_bg #e6e6e6;
    @define-color axys_fg #000000;
    @define-color axys_accent #2f6fe4;
"#;

/// What comes before the palette in the style sheet.
pub const STYLE_OPENING: &'static str = r#"
        "#;

/// The rules between the palette and the alpha of dimmed labels.
pub const STYLE_RULES_HEAD: &'static str = r#"

        window {
            background-color: @axys_bg;
            color: @axys_fg;
        }

        label {
            color: @axys_fg;
        }

        .dim-label {
            color: alpha(@axys_fg, "#;

/// The rules after the alpha of dimmed labels.
pub const STYLE_RULES_TAIL: &'static str = r#");
        }

        .title-1,
        .title-2,
        .title-3,
        .title-4 {
            color: @axys_fg;
        }

        button,
        button image,
        button.flat,
        button.flat image {
            color: @axys_fg;
        }

        /*
         * GtkMenuButton / GtkPopover / GtkDropDown popup.
         * These surfaces live in their own popup hierarchy, so they
         * must explicitly use Axys' palette instead of inheriting the
         * system dark theme.
         */
        popover,
        popover.background,
        popover > contents,
        popover.menu,
        popover.menu.contents,
        popover contents,
        window.popup,
        window.popup > contents {
            background-color: @axys_bg;
            color: @axys_fg;
        }

        popover *,
        window.popup * {
            color: @axys_fg;
        }

        popover separator,
        window.popup separator {
            background-color: alpha(@axys_fg, 0.10);
            color: alpha(@axys_fg, 0.10);
        }

        popover modelbutton,
        popover button.model,
        popover row,
        window.popup row {
            background-color: transparent;
            color: @axys_fg;
        }

        popover modelbutton:hover,
        popover button.model:hover,
        popover row:hover,
        window.popup row:hover {
            background-color: alpha(@axys_fg, 0.08);
            color: @axys_fg;
        }

        popover row:selected,
        window.popup row:selected,
        popover modelbutton:selected {
            background-color: alpha(@axys_accent, 0.18);
            color: @axys_fg;
        }

        dropdown {
            color: @axys_fg;
            background-color: alpha(@axys_fg, 0.045);
            border: 1px solid alpha(@axys_fg, 0.10);
            border-radius: 9px;
        }

        dropdown > button {
            color: @axys_fg;
            background-color: transparent;
        }

        dropdown > button:hover {
            background-color: alpha(@axys_fg, 0.07);
        }

        dropdown arrow {
            color: @axys_fg;
        }

        .address-top {
            min-height: 18px;
            padding: 5px 12px;
            border-radius: 16px;
            border: 1px solid alpha(@axys_fg, 0.08);
            background: alpha(@axys_fg, 0.045);
            box-shadow: none;
            font-size: 0.90em;
            color: @axys_fg;
        }

        .address-top:focus {
            border-color: alpha(@axys_accent, 0.45);
            background: alpha(@axys_fg, 0.07);
        }

        .search-main {
            min-height: 34px;
            padding: 10px 16px;
            border-radius: 18px;
            border: 1px solid alpha(@axys_fg, 0.10);
            background: alpha(@axys_fg, 0.055);
            box-shadow: none;
            font-size: 0.92em;
            color: @axys_fg;
        }

        .search-main:focus {
            border-color: alpha(@axys_accent, 0.55);
            background: alpha(@axys_fg, 0.08);
        }

        .tab {
            min-height: 30px;
            padding: 2px 4px 2px 9px;
            border-radius: 9px;
            background: transparent;
        }

        .tab:hover {
            background: alpha(@axys_fg, 0.06);
        }

        .tab.active {
            background: alpha(@axys_fg, 0.10);
        }

        .tab-select {
            padding: 2px 5px;
            border-radius: 7px;
            background: transparent;
            box-shadow: none;
            color: @axys_fg;
        }

        .tab-close {
            opacity: 0;
            min-width: 20px;
            min-height: 20px;
            padding: 0;
            border-radius: 6px;
        }

        .tab:hover .tab-close,
        .tab.active .tab-close {
            opacity: 1;
        }

        .newtab-logo {
            font-size: 3.8em;
            font-weight: 600;
            padding: 4px 18px;
            border-radius: 12px;
            background: transparent;
            box-shadow: none;
            color: @axys_fg;
        }

        .newtab-logo:hover {
            background: alpha(@axys_fg, 0.06);
        }

        .newtab-logo:active {
            background: alpha(@axys_fg, 0.10);
        }

        button.flat {
            min-width: 30px;
            min-height: 30px;
            padding: 4px;
            border-radius: 9px;
            box-shadow: none;
        }

        button.flat:hover {
            background: alpha(@axys_fg, 0.07);
        }

        button.flat:active {
            background: alpha(@axys_fg, 0.12);
        }

        .private-banner {
            padding: 6px 12px;
            border-radius: 12px;
            background: alpha(@axys_accent, 0.10);
            color: @axys_fg;
        }
        "#;

/// The palette of a theme.
pub open spec fn palette(dark: bool) -> Seq<char> {
    if dark {
        DARK_PALETTE@
    } else {
        LIGHT_PALETTE@
    }
}

/// The alpha of dimmed labels: lower on a dark background.
pub open spec fn dim_alpha(dark: bool) -> Seq<char> {
    if dark {
        "0.62"@
    } else {
        "0.92"@
    }
}

/// The style sheet of a theme: the palette, then the rules, with dimmed
/// labels at the theme's alpha.
pub open spec fn stylesheet_text(dark: bool) -> Seq<char> {
    STYLE_OPENING@ + palette(dark) + STYLE_RULES_HEAD@ + dim_alpha(dark) + STYLE_RULES_TAIL@
}

/// The style sheet for the dark or the light theme.
pub fn stylesheet(dark: bool) -> (css: String)
    ensures
        css@ == stylesheet_text(dark),
{
    let palette = if dark {
        DARK_PALETTE
    } else {
        LIGHT_PALETTE
    };
    let dim_alpha = if dark {
        "0.62"
    } else {
        "0.92"
    };
    let mut css = STYLE_OPENING.to_owned();
    css.append(palette);
    css.append(STYLE_RULES_HEAD);
    css.append(dim_alpha);
    css.append(STYLE_RULES_TAIL);
    css
}

} // verus!
