//! Themes: colors, type and spacing, and the CSS variables they set.

use vstd::prelude::*;
use crate::model::ThemePreset;
use crate::style::css_generator::{ColorScheme, Spacing};
use crate::text::{dec, decimal, push_chars, push_str};

verus! {

/// Type settings of a theme. The line height is the factor as the style
/// sheet writes it.
#[derive(Debug, Clone)]
pub struct Typography {
    pub body_font: String,
    pub heading_font: String,
    /// Base font size, in pixels.
    pub base_size: u32,
    pub line_height: String,
    pub paragraph_spacing: String,
    pub heading_weight: u32,
}

/// A theme.
#[derive(Debug, Clone)]
pub struct Theme {
    pub name: String,
    pub colors: ColorScheme,
    pub typography: Typography,
    pub spacing: Spacing,
}

/// The values of the light theme.
pub open spec fn is_light(r: Theme) -> bool {
    &&& r.name@ == "浅色主题"@
    &&& r.colors.background@ == "#ffffff"@
    &&& r.colors.text@ == "#333333"@
    &&& r.colors.text_secondary@ == "#666666"@
    &&& r.colors.accent@ == "#0066cc"@
    &&& r.colors.border@ == "#dddddd"@
    &&& r.colors.chapter_bg@ == "#f8f8f8"@
    &&& r.colors.chapter_text@ == "#222222"@
    &&& r.colors.highlight@ == "#fff3cd"@
    &&& r.typography.body_font@ == "system-ui, -apple-system, sans-serif"@
    &&& r.typography.heading_font@ == "system-ui, -apple-system, sans-serif"@
    &&& r.typography.paragraph_spacing@ == "1em"@
    &&& r.typography.base_size == 18
    &&& r.typography.line_height@ == "1.8"@
    &&& r.typography.heading_weight == 600
    &&& r.spacing.page_padding@ == "2rem"@
    &&& r.spacing.chapter_margin@ == "3rem"@
    &&& r.spacing.paragraph_indent@ == "2em"@
    &&& r.spacing.line_padding@ == "0.5em"@
}
/// The values of the dark theme.
pub open spec fn is_dark(r: Theme) -> bool {
    &&& r.name@ == "深色主题"@
    &&& r.colors.background@ == "#1a1a1a"@
    &&& r.colors.text@ == "#e0e0e0"@
    &&& r.colors.text_secondary@ == "#a0a0a0"@
    &&& r.colors.accent@ == "#66b3ff"@
    &&& r.colors.border@ == "#444444"@
    &&& r.colors.chapter_bg@ == "#2a2a2a"@
    &&& r.colors.chapter_text@ == "#f0f0f0"@
    &&& r.colors.highlight@ == "#4a4a00"@
    &&& r.typography.body_font@ == "system-ui, -apple-system, sans-serif"@
    &&& r.typography.heading_font@ == "system-ui, -apple-system, sans-serif"@
    &&& r.typography.paragraph_spacing@ == "1em"@
    &&& r.typography.base_size == 18
    &&& r.typography.line_height@ == "1.8"@
    &&& r.typography.heading_weight == 600
    &&& r.spacing.page_padding@ == "2rem"@
    &&& r.spacing.chapter_margin@ == "3rem"@
    &&& r.spacing.paragraph_indent@ == "2em"@
    &&& r.spacing.line_padding@ == "0.5em"@
}
/// The values of the sepia (eye-care) theme.
pub open spec fn is_sepia(r: Theme) -> bool {
    &&& r.name@ == "护眼模式"@
    &&& r.colors.background@ == "#f4ecd8"@
    &&& r.colors.text@ == "#433422"@
    &&& r.colors.text_secondary@ == "#5c4a35"@
    &&& r.colors.accent@ == "#8b4513"@
    &&& r.colors.border@ == "#d4c5a9"@
    &&& r.colors.chapter_bg@ == "#e8dcc0"@
    &&& r.colors.chapter_text@ == "#2d1f0f"@
    &&& r.colors.highlight@ == "#d4c5a9"@
    &&& r.typography.body_font@ == "Georgia, 'Times New Roman', serif"@
    &&& r.typography.heading_font@ == "Georgia, 'Times New Roman', serif"@
    &&& r.typography.paragraph_spacing@ == "1.1em"@
    &&& r.typography.base_size == 19
    &&& r.typography.line_height@ == "1.9"@
    &&& r.typography.heading_weight == 600
    &&& r.spacing.page_padding@ == "2.5rem"@
    &&& r.spacing.chapter_margin@ == "3.5rem"@
    &&& r.spacing.paragraph_indent@ == "2em"@
    &&& r.spacing.line_padding@ == "0.6em"@
}
/// The values of the high-contrast theme.
pub open spec fn is_high_contrast(r: Theme) -> bool {
    &&& r.name@ == "高对比度"@
    &&& r.colors.background@ == "#000000"@
    &&& r.colors.text@ == "#ffffff"@
    &&& r.colors.text_secondary@ == "#cccccc"@
    &&& r.colors.accent@ == "#ffff00"@
    &&& r.colors.border@ == "#ffffff"@
    &&& r.colors.chapter_bg@ == "#1a1a1a"@
    &&& r.colors.chapter_text@ == "#ffffff"@
    &&& r.colors.highlight@ == "#ffff00"@
    &&& r.typography.body_font@ == "Arial, Helvetica, sans-serif"@
    &&& r.typography.heading_font@ == "Arial, Helvetica, sans-serif"@
    &&& r.typography.paragraph_spacing@ == "1.2em"@
    &&& r.typography.base_size == 20
    &&& r.typography.line_height@ == "2"@
    &&& r.typography.heading_weight == 700
    &&& r.spacing.page_padding@ == "2rem"@
    &&& r.spacing.chapter_margin@ == "4rem"@
    &&& r.spacing.paragraph_indent@ == "2.5em"@
    &&& r.spacing.line_padding@ == "0.8em"@
}
/// The values of the modern, plain theme.
pub open spec fn is_modern(r: Theme) -> bool {
    &&& r.name@ == "现代简约"@
    &&& r.colors.background@ == "#fafafa"@
    &&& r.colors.text@ == "#2c3e50"@
    &&& r.colors.text_secondary@ == "#7f8c8d"@
    &&& r.colors.accent@ == "#3498db"@
    &&& r.colors.border@ == "#ecf0f1"@
    &&& r.colors.chapter_bg@ == "#ffffff"@
    &&& r.colors.chapter_text@ == "#2c3e50"@
    &&& r.colors.highlight@ == "#e8f4f8"@
    &&& r.typography.body_font@ == "'Segoe UI', Roboto, 'Helvetica Neue', sans-serif"@
    &&& r.typography.heading_font@ == "'Segoe UI', Roboto, 'Helvetica Neue', sans-serif"@
    &&& r.typography.paragraph_spacing@ == "0.9em"@
    &&& r.typography.base_size == 17
    &&& r.typography.line_height@ == "1.7"@
    &&& r.typography.heading_weight == 500
    &&& r.spacing.page_padding@ == "1.5rem"@
    &&& r.spacing.chapter_margin@ == "2.5rem"@
    &&& r.spacing.paragraph_indent@ == "1.5em"@
    &&& r.spacing.line_padding@ == "0.4em"@
}
/// The values of the traditional, literary theme.
pub open spec fn is_traditional(r: Theme) -> bool {
    &&& r.name@ == "传统文学"@
    &&& r.colors.background@ == "#fdfbf7"@
    &&& r.colors.text@ == "#2b2b2b"@
    &&& r.colors.text_secondary@ == "#5a5a5a"@
    &&& r.colors.accent@ == "#8b0000"@
    &&& r.colors.border@ == "#d4d4d4"@
    &&& r.colors.chapter_bg@ == "#f5f5dc"@
    &&& r.colors.chapter_text@ == "#1a1a1a"@
    &&& r.colors.highlight@ == "#f0e68c"@
    &&& r.typography.body_font@ == "'Noto Serif CJK SC', 'Source Han Serif SC', 'SimSun', serif"@
    &&& r.typography.heading_font@ == "'Noto Serif CJK SC', 'Source Han Serif SC', 'SimSun', serif"@
    &&& r.typography.paragraph_spacing@ == "1.2em"@
    &&& r.typography.base_size == 20
    &&& r.typography.line_height@ == "2"@
    &&& r.typography.heading_weight == 700
    &&& r.spacing.page_padding@ == "3rem"@
    &&& r.spacing.chapter_margin@ == "4rem"@
    &&& r.spacing.paragraph_indent@ == "2.5em"@
    &&& r.spacing.line_padding@ == "0.8em"@
}

/// The theme of a preset.
pub open spec fn is_preset_theme(r: Theme, p: ThemePreset) -> bool {
    match p {
        ThemePreset::Light => is_light(r),
        ThemePreset::Dark => is_dark(r),
        ThemePreset::Sepia => is_sepia(r),
        ThemePreset::HighContrast => is_high_contrast(r),
        ThemePreset::Modern => is_modern(r),
        ThemePreset::Traditional => is_traditional(r),
    }
}

/// The `:root` rule that sets the CSS variables of theme `t`.
pub open spec fn css_variables_text(t: Theme) -> Seq<char> {
    ":root {\n    /* 颜色 */\n    --bg-color: "@
        + t.colors.background@
        + ";\n    --text-color: "@
        + t.colors.text@
        + ";\n    --text-secondary: "@
        + t.colors.text_secondary@
        + ";\n    --accent-color: "@
        + t.colors.accent@
        + ";\n    --border-color: "@
        + t.colors.border@
        + ";\n    --chapter-bg: "@
        + t.colors.chapter_bg@
        + ";\n    --chapter-text: "@
        + t.colors.chapter_text@
        + ";\n    --highlight-color: "@
        + t.colors.highlight@
        + ";\n    \n    /* 字体 */\n    --body-font: "@
        + t.typography.body_font@
        + ";\n    --heading-font: "@
        + t.typography.heading_font@
        + ";\n    --base-size: "@
        + dec(t.typography.base_size as nat)
        + "px;\n    --line-height: "@
        + t.typography.line_height@
        + ";\n    --paragraph-spacing: "@
        + t.typography.paragraph_spacing@
        + ";\n    --heading-weight: "@
        + dec(t.typography.heading_weight as nat)
        + ";\n    \n    /* 间距 */\n    --page-padding: "@
        + t.spacing.page_padding@
        + ";\n    --chapter-margin: "@
        + t.spacing.chapter_margin@
        + ";\n    --paragraph-indent: "@
        + t.spacing.paragraph_indent@
        + ";\n    --line-padding: "@
        + t.spacing.line_padding@
        + ";\n}"@
}

impl Theme {
    /// The light theme.
    pub fn light() -> (r: Theme)
        ensures
            is_light(r),
    {
        Theme {
            name: "浅色主题".to_string(),
            colors: ColorScheme {
                background: "#ffffff".to_string(),
                text: "#333333".to_string(),
                text_secondary: "#666666".to_string(),
                accent: "#0066cc".to_string(),
                border: "#dddddd".to_string(),
                chapter_bg: "#f8f8f8".to_string(),
                chapter_text: "#222222".to_string(),
                highlight: "#fff3cd".to_string(),
            },
            typography: Typography {
                body_font: "system-ui, -apple-system, sans-serif".to_string(),
                heading_font: "system-ui, -apple-system, sans-serif".to_string(),
                base_size: 18,
                line_height: "1.8".to_string(),
                paragraph_spacing: "1em".to_string(),
                heading_weight: 600,
            },
            spacing: Spacing {
                page_padding: "2rem".to_string(),
                chapter_margin: "3rem".to_string(),
                paragraph_indent: "2em".to_string(),
                line_padding: "0.5em".to_string(),
            },
        }
    }
    /// The dark theme.
    pub fn dark() -> (r: Theme)
        ensures
            is_dark(r),
    {
        Theme {
            name: "深色主题".to_string(),
            colors: ColorScheme {
                background: "#1a1a1a".to_string(),
                text: "#e0e0e0".to_string(),
                text_secondary: "#a0a0a0".to_string(),
                accent: "#66b3ff".to_string(),
                border: "#444444".to_string(),
                chapter_bg: "#2a2a2a".to_string(),
                chapter_text: "#f0f0f0".to_string(),
                highlight: "#4a4a00".to_string(),
            },
            typography: Typography {
                body_font: "system-ui, -apple-system, sans-serif".to_string(),
                heading_font: "system-ui, -apple-system, sans-serif".to_string(),
                base_size: 18,
                line_height: "1.8".to_string(),
                paragraph_spacing: "1em".to_string(),
                heading_weight: 600,
            },
            spacing: Spacing {
                page_padding: "2rem".to_string(),
                chapter_margin: "3rem".to_string(),
                paragraph_indent: "2em".to_string(),
                line_padding: "0.5em".to_string(),
            },
        }
    }
    /// The sepia (eye-care) theme.
    pub fn sepia() -> (r: Theme)
        ensures
            is_sepia(r),
    {
        Theme {
            name: "护眼模式".to_string(),
            colors: ColorScheme {
                background: "#f4ecd8".to_string(),
                text: "#433422".to_string(),
                text_secondary: "#5c4a35".to_string(),
                accent: "#8b4513".to_string(),
                border: "#d4c5a9".to_string(),
                chapter_bg: "#e8dcc0".to_string(),
                chapter_text: "#2d1f0f".to_string(),
                highlight: "#d4c5a9".to_string(),
            },
            typography: Typography {
                body_font: "Georgia, 'Times New Roman', serif".to_string(),
                heading_font: "Georgia, 'Times New Roman', serif".to_string(),
                base_size: 19,
                line_height: "1.9".to_string(),
                paragraph_spacing: "1.1em".to_string(),
                heading_weight: 600,
            },
            spacing: Spacing {
                page_padding: "2.5rem".to_string(),
                chapter_margin: "3.5rem".to_string(),
                paragraph_indent: "2em".to_string(),
                line_padding: "0.6em".to_string(),
            },
        }
    }
    /// The high-contrast theme.
    pub fn high_contrast() -> (r: Theme)
        ensures
            is_high_contrast(r),
    {
        Theme {
            name: "高对比度".to_string(),
            colors: ColorScheme {
                background: "#000000".to_string(),
                text: "#ffffff".to_string(),
                text_secondary: "#cccccc".to_string(),
                accent: "#ffff00".to_string(),
                border: "#ffffff".to_string(),
                chapter_bg: "#1a1a1a".to_string(),
                chapter_text: "#ffffff".to_string(),
                highlight: "#ffff00".to_string(),
            },
            typography: Typography {
                body_font: "Arial, Helvetica, sans-serif".to_string(),
                heading_font: "Arial, Helvetica, sans-serif".to_string(),
                base_size: 20,
                line_height: "2".to_string(),
                paragraph_spacing: "1.2em".to_string(),
                heading_weight: 700,
            },
            spacing: Spacing {
                page_padding: "2rem".to_string(),
                chapter_margin: "4rem".to_string(),
                paragraph_indent: "2.5em".to_string(),
                line_padding: "0.8em".to_string(),
            },
        }
    }
    /// The modern, plain theme.
    pub fn modern() -> (r: Theme)
        ensures
            is_modern(r),
    {
        Theme {
            name: "现代简约".to_string(),
            colors: ColorScheme {
                background: "#fafafa".to_string(),
                text: "#2c3e50".to_string(),
                text_secondary: "#7f8c8d".to_string(),
                accent: "#3498db".to_string(),
                border: "#ecf0f1".to_string(),
                chapter_bg: "#ffffff".to_string(),
                chapter_text: "#2c3e50".to_string(),
                highlight: "#e8f4f8".to_string(),
            },
            typography: Typography {
                body_font: "'Segoe UI', Roboto, 'Helvetica Neue', sans-serif".to_string(),
                heading_font: "'Segoe UI', Roboto, 'Helvetica Neue', sans-serif".to_string(),
                base_size: 17,
                line_height: "1.7".to_string(),
                paragraph_spacing: "0.9em".to_string(),
                heading_weight: 500,
            },
            spacing: Spacing {
                page_padding: "1.5rem".to_string(),
                chapter_margin: "2.5rem".to_string(),
                paragraph_indent: "1.5em".to_string(),
                line_padding: "0.4em".to_string(),
            },
        }
    }
    /// The traditional, literary theme.
    pub fn traditional() -> (r: Theme)
        ensures
            is_traditional(r),
    {
        Theme {
            name: "传统文学".to_string(),
            colors: ColorScheme {
                background: "#fdfbf7".to_string(),
                text: "#2b2b2b".to_string(),
                text_secondary: "#5a5a5a".to_string(),
                accent: "#8b0000".to_string(),
                border: "#d4d4d4".to_string(),
                chapter_bg: "#f5f5dc".to_string(),
                chapter_text: "#1a1a1a".to_string(),
                highlight: "#f0e68c".to_string(),
            },
            typography: Typography {
                body_font: "'Noto Serif CJK SC', 'Source Han Serif SC', 'SimSun', serif".to_string(),
                heading_font: "'Noto Serif CJK SC', 'Source Han Serif SC', 'SimSun', serif".to_string(),
                base_size: 20,
                line_height: "2".to_string(),
                paragraph_spacing: "1.2em".to_string(),
                heading_weight: 700,
            },
            spacing: Spacing {
                page_padding: "3rem".to_string(),
                chapter_margin: "4rem".to_string(),
                paragraph_indent: "2.5em".to_string(),
                line_padding: "0.8em".to_string(),
            },
        }
    }

    /// The theme of a preset.
    pub fn for_preset(p: ThemePreset) -> (r: Theme)
        ensures
            is_preset_theme(r, p),
    {
        match p {
            ThemePreset::Light => Theme::light(),
            ThemePreset::Dark => Theme::dark(),
            ThemePreset::Sepia => Theme::sepia(),
            ThemePreset::HighContrast => Theme::high_contrast(),
            ThemePreset::Modern => Theme::modern(),
            ThemePreset::Traditional => Theme::traditional(),
        }
    }

    /// The `:root` rule that sets the theme's CSS variables.
    pub fn to_css_variables(&self) -> (r: String)
        ensures
            r@ == css_variables_text(*self),
    {
        css_variables(self)
    }
}

/// The `:root` rule that sets the CSS variables of `theme`.
fn css_variables(theme: &Theme) -> (r: String)
    ensures
        r@ == css_variables_text(*theme),
{
    let mut out = String::new();
    push_str(&mut out, ":root {\n    /* 颜色 */\n    --bg-color: ");
    assert(out@ =~= ":root {\n    /* 颜色 */\n    --bg-color: "@);
    push_str(&mut out, theme.colors.background.as_str());
    push_str(&mut out, ";\n    --text-color: ");
    push_str(&mut out, theme.colors.text.as_str());
    push_str(&mut out, ";\n    --text-secondary: ");
    push_str(&mut out, theme.colors.text_secondary.as_str());
    push_str(&mut out, ";\n    --accent-color: ");
    push_str(&mut out, theme.colors.accent.as_str());
    push_str(&mut out, ";\n    --border-color: ");
    push_str(&mut out, theme.colors.border.as_str());
    push_str(&mut out, ";\n    --chapter-bg: ");
    push_str(&mut out, theme.colors.chapter_bg.as_str());
    push_str(&mut out, ";\n    --chapter-text: ");
    push_str(&mut out, theme.colors.chapter_text.as_str());
    push_str(&mut out, ";\n    --highlight-color: ");
    push_str(&mut out, theme.colors.highlight.as_str());
    push_str(&mut out, ";\n    \n    /* 字体 */\n    --body-font: ");
    push_str(&mut out, theme.typography.body_font.as_str());
    push_str(&mut out, ";\n    --heading-font: ");
    push_str(&mut out, theme.typography.heading_font.as_str());
    push_str(&mut out, ";\n    --base-size: ");
    push_chars(&mut out, &decimal(theme.typography.base_size as u64));
    push_str(&mut out, "px;\n    --line-height: ");
    push_str(&mut out, theme.typography.line_height.as_str());
    push_str(&mut out, ";\n    --paragraph-spacing: ");
    push_str(&mut out, theme.typography.paragraph_spacing.as_str());
    push_str(&mut out, ";\n    --heading-weight: ");
    push_chars(&mut out, &decimal(theme.typography.heading_weight as u64));
    push_str(&mut out, ";\n    \n    /* 间距 */\n    --page-padding: ");
    push_str(&mut out, theme.spacing.page_padding.as_str());
    push_str(&mut out, ";\n    --chapter-margin: ");
    push_str(&mut out, theme.spacing.chapter_margin.as_str());
    push_str(&mut out, ";\n    --paragraph-indent: ");
    push_str(&mut out, theme.spacing.paragraph_indent.as_str());
    push_str(&mut out, ";\n    --line-padding: ");
    push_str(&mut out, theme.spacing.line_padding.as_str());
    push_str(&mut out, ";\n}");
    out
}

impl Default for Theme {
    fn default() -> (r: Theme)
        ensures
            is_light(r),
    {
        Theme::light()
    }
}

} // verus!
