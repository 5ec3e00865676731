//! The palette: what every colour of the interface is in a light and in a dark appearance.

use vstd::prelude::*;

verus! {

/// What the user asked for.
#[derive(Clone, Copy, Debug, PartialEq, Eq, Structural)]
pub enum AppearanceMode {
    System,
    Light,
    Dark,
}

/// What the system shows its windows in.
#[derive(Clone, Copy, Debug, PartialEq, Eq, Structural)]
pub enum WindowAppearance {
    Light,
    VibrantLight,
    Dark,
    VibrantDark,
}

/// A colour: its channels, and how much of what lies under it it covers, in percent.
#[derive(Clone, Copy, Debug, PartialEq, Eq, Structural)]
pub struct Color {
    pub red: u8,
    pub green: u8,
    pub blue: u8,
    pub alpha: u8,
}

/// The colour whose channels are the three lower bytes of `value`, red the highest.
pub open spec fn color_of(value: u32, alpha: int) -> Color {
    Color {
        red: ((value / 0x10000) % 0x100) as u8,
        green: ((value / 0x100) % 0x100) as u8,
        blue: (value % 0x100) as u8,
        alpha: (if alpha < 0 {
            0
        } else if alpha > 100 {
            100
        } else {
            alpha
        }) as u8,
    }
}

/// The colour with the channels of `value`, `alpha` percent of it.
pub fn rgba_hex(value: u32, alpha: u32) -> (color: Color)
    ensures
        color == color_of(value, alpha as int),
{
    assert(((value >> 16) & 0xff) == (value / 0x10000) % 0x100) by (bit_vector);
    assert(((value >> 8) & 0xff) == (value / 0x100) % 0x100) by (bit_vector);
    assert((value & 0xff) == value % 0x100) by (bit_vector);
    Color {
        red: ((value >> 16) & 0xff) as u8,
        green: ((value >> 8) & 0xff) as u8,
        blue: (value & 0xff) as u8,
        alpha: if alpha > 100 {
            100
        } else {
            alpha as u8
        },
    }
}

impl Color {
    /// The strongest channel and the weakest together: twice the lightness of the colour,
    /// where full lightness is 510.
    pub open spec fn lightness_of(self) -> int {
        let most = if self.red >= self.green && self.red >= self.blue {
            self.red
        } else if self.green >= self.blue {
            self.green
        } else {
            self.blue
        };
        let least = if self.red <= self.green && self.red <= self.blue {
            self.red
        } else if self.green <= self.blue {
            self.green
        } else {
            self.blue
        };
        most + least
    }

    pub fn lightness(&self) -> (lightness: u32)
        ensures
            lightness == self.lightness_of(),
    {
        let most: u8 = if self.red >= self.green && self.red >= self.blue {
            self.red
        } else if self.green >= self.blue {
            self.green
        } else {
            self.blue
        };
        let least: u8 = if self.red <= self.green && self.red <= self.blue {
            self.red
        } else if self.green <= self.blue {
            self.green
        } else {
            self.blue
        };
        most as u32 + least as u32
    }
}

/// The palette in one appearance.
#[derive(Clone, Copy, Debug, PartialEq, Eq, Structural)]
pub struct Theme {
    pub light: bool,
}

/// Whether the interface is drawn light.
pub open spec fn draws_light(preference: AppearanceMode, system: WindowAppearance) -> bool {
    match preference {
        AppearanceMode::System => system == WindowAppearance::Light || system
            == WindowAppearance::VibrantLight,
        AppearanceMode::Light => true,
        AppearanceMode::Dark => false,
    }
}

impl Theme {
    /// The palette before anything has been settled: the dark one.
    pub fn new() -> (theme: Theme)
        ensures
            !theme.light,
    {
        Theme { light: false }
    }

    pub fn is_light(&self) -> (light: bool)
        ensures
            light == self.light,
    {
        self.light
    }

    /// The palette for what the user asked for, or for what the system shows.
    pub fn sync(preference: AppearanceMode, system: WindowAppearance) -> (theme: Theme)
        ensures
            theme.light == draws_light(preference, system),
    {
        let light: bool = match preference {
            AppearanceMode::System => match system {
                WindowAppearance::Light | WindowAppearance::VibrantLight => true,
                _ => false,
            },
            AppearanceMode::Light => true,
            AppearanceMode::Dark => false,
        };
        Theme { light }
    }

    pub open spec fn pick(self, day: u32, night: u32) -> Color {
        color_of(
            if self.light {
                day
            } else {
                night
            },
            100,
        )
    }

    /// The colour for a light and for a dark appearance.
    fn choose_color(&self, day: u32, night: u32) -> (color: Color)
        ensures
            color == self.pick(day, night),
    {
        rgba_hex(
            if self.light {
                day
            } else {
                night
            },
            100,
        )
    }

    fn choose_translucent(&self, day: u32, night: u32, alpha: u32) -> (color: Color)
        ensures
            color == color_of(
                if self.light {
                    day
                } else {
                    night
                },
                alpha as int,
            ),
    {
        rgba_hex(
            if self.light {
                day
            } else {
                night
            },
            alpha,
        )
    }

    pub fn window_bg(&self) -> (color: Color)
        ensures
            color == self.pick(0xf7f7f9, 0x141416),
    {
        self.choose_color(0xf7f7f9, 0x141416)
    }

    pub fn sidebar_bg(&self) -> (color: Color)
        ensures
            color == self.pick(0xefeff3, 0x1a1a1e),
    {
        self.choose_color(0xefeff3, 0x1a1a1e)
    }

    pub fn surface(&self) -> (color: Color)
        ensures
            color == self.pick(0xffffff, 0x202024),
    {
        self.choose_color(0xffffff, 0x202024)
    }

    pub fn surface_hover(&self) -> (color: Color)
        ensures
            color == self.pick(0xe8eaf0, 0x28282e),
    {
        self.choose_color(0xe8eaf0, 0x28282e)
    }

    pub fn input_bg(&self) -> (color: Color)
        ensures
            color == self.pick(0xf3f3f6, 0x1c1c21),
    {
        self.choose_color(0xf3f3f6, 0x1c1c21)
    }

    pub fn border(&self) -> (color: Color)
        ensures
            color == self.pick(0xd9d9e0, 0x2c2c33),
    {
        self.choose_color(0xd9d9e0, 0x2c2c33)
    }

    pub fn border_strong(&self) -> (color: Color)
        ensures
            color == self.pick(0xc4c4ce, 0x3a3a44),
    {
        self.choose_color(0xc4c4ce, 0x3a3a44)
    }

    pub fn text(&self) -> (color: Color)
        ensures
            color == self.pick(0x202126, 0xe8e8ec),
    {
        self.choose_color(0x202126, 0xe8e8ec)
    }

    pub fn text_secondary(&self) -> (color: Color)
        ensures
            color == self.pick(0x5f616b, 0x9b9ba6),
    {
        self.choose_color(0x5f616b, 0x9b9ba6)
    }

    pub fn text_tertiary(&self) -> (color: Color)
        ensures
            color == self.pick(0x858894, 0x6d6d78),
    {
        self.choose_color(0x858894, 0x6d6d78)
    }

    pub fn accent(&self) -> (color: Color)
        ensures
            color == self.pick(0x276df1, 0x4f8cff),
    {
        self.choose_color(0x276df1, 0x4f8cff)
    }

    pub fn accent_soft(&self) -> (color: Color)
        ensures
            color == if self.light {
                color_of(0x276df1, 12)
            } else {
                color_of(0x4f8cff, 16)
            },
    {
        if self.light {
            rgba_hex(0x276df1, 12)
        } else {
            rgba_hex(0x4f8cff, 16)
        }
    }

    pub fn user_bubble(&self) -> (color: Color)
        ensures
            color == self.pick(0xdce8ff, 0x2c3b58),
    {
        self.choose_color(0xdce8ff, 0x2c3b58)
    }

    pub fn tool_bg(&self) -> (color: Color)
        ensures
            color == color_of(
                if self.light {
                    0x000000
                } else {
                    0xffffff
                },
                5,
            ),
    {
        self.choose_translucent(0x000000, 0xffffff, 5)
    }

    pub fn clarify_bg(&self) -> (color: Color)
        ensures
            color == color_of(
                if self.light {
                    0x276df1
                } else {
                    0x4f8cff
                },
                10,
            ),
    {
        self.choose_translucent(0x276df1, 0x4f8cff, 10)
    }

    pub fn danger(&self) -> (color: Color)
        ensures
            color == self.pick(0xd93f38, 0xff5f57),
    {
        self.choose_color(0xd93f38, 0xff5f57)
    }

    pub fn warn(&self) -> (color: Color)
        ensures
            color == self.pick(0xb86600, 0xf5a623),
    {
        self.choose_color(0xb86600, 0xf5a623)
    }

    pub fn ok(&self) -> (color: Color)
        ensures
            color == self.pick(0x21883c, 0x34c759),
    {
        self.choose_color(0x21883c, 0x34c759)
    }

    pub fn code_bg(&self) -> (color: Color)
        ensures
            color == self.pick(0xedeef2, 0x1b1b20),
    {
        self.choose_color(0xedeef2, 0x1b1b20)
    }

    /// Overlay scrollbar thumb, drawn on top of the content.
    pub fn scrollbar_thumb(&self) -> (color: Color)
        ensures
            color == color_of(
                if self.light {
                    0x1c1c21
                } else {
                    0xffffff
                },
                30,
            ),
    {
        self.choose_translucent(0x1c1c21, 0xffffff, 30)
    }

    /// The highlight under selected text: the accent, translucent, so that selected glyphs stay
    /// readable on every fill they sit on.
    pub fn selection(&self) -> (color: Color)
        ensures
            color == color_of(
                if self.light {
                    0x276df1
                } else {
                    0x4f8cff
                },
                40,
            ),
    {
        self.choose_translucent(0x276df1, 0x4f8cff, 40)
    }

    /// The same selection once its field lost focus: dimmer and grayer, so that it stays
    /// visible without competing with the active one.
    pub fn selection_unfocused(&self) -> (color: Color)
        ensures
            color == color_of(
                if self.light {
                    0x276df1
                } else {
                    0x9aa4b2
                },
                24,
            ),
    {
        self.choose_translucent(0x276df1, 0x9aa4b2, 24)
    }

    pub fn scrollbar_thumb_active(&self) -> (color: Color)
        ensures
            color == color_of(
                if self.light {
                    0x1c1c21
                } else {
                    0xffffff
                },
                45,
            ),
    {
        self.choose_translucent(0x1c1c21, 0xffffff, 45)
    }

    pub fn quote_bar(&self) -> (color: Color)
        ensures
            color == color_of(
                if self.light {
                    0x000000
                } else {
                    0xffffff
                },
                25,
            ),
    {
        self.choose_translucent(0x000000, 0xffffff, 25)
    }

    /// The label that goes on a fill: black on a fill of more than half lightness.
    pub open spec fn label_for(self, fill: Color) -> Color {
        if fill.lightness_of() > 255 {
            color_of(0, 100)
        } else {
            self.pick(0x202126, 0xe8e8ec)
        }
    }

    /// Label colour that stays readable on a given fill. The accent and danger fills are
    /// bright enough for a dark label; the neutral surfaces are not.
    pub fn label_on(&self, fill: Color) -> (label: Color)
        ensures
            label == self.label_for(fill),
    {
        if fill.lightness() > 255 {
            rgba_hex(0, 100)
        } else {
            self.text()
        }
    }

    /// What the user asked for is drawn whatever the system shows; only a user who leaves it
    /// to the system gets the system's appearance.
    pub proof fn an_explicit_choice_ignores_the_system(system: WindowAppearance)
        ensures
            draws_light(AppearanceMode::Light, system),
            !draws_light(AppearanceMode::Dark, system),
            draws_light(AppearanceMode::System, system) <==> system == WindowAppearance::Light
                || system == WindowAppearance::VibrantLight,
    {
    }

    /// A label contrasts with every fill that buttons use, in either appearance: their
    /// lightness differs by more than three tenths.
    pub proof fn labels_contrast_with_their_fills(self)
        ensures
            self.contrasts(self.pick(0xd93f38, 0xff5f57)),
            self.contrasts(self.pick(0x276df1, 0x4f8cff)),
            self.contrasts(self.pick(0xe8eaf0, 0x28282e)),
            self.contrasts(self.pick(0xffffff, 0x202024)),
    {
    }

    /// Whether the label on a fill can be read.
    pub open spec fn contrasts(self, fill: Color) -> bool {
        let label = self.label_for(fill).lightness_of();
        label - fill.lightness_of() > 153 || fill.lightness_of() - label > 153
    }
}

} // verus!
