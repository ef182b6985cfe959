//! The text of the built-in theme files, in the theme file format: a
//! `[colors]` table of named hex colours and a `[styles]` table of element
//! styles that refer to them.

use vstd::prelude::*;

verus! {

/// The built-in `ayu_dark` theme.
pub const AYU_DARK: &'static str = "[colors]\n\
fg = \"#bfbdb6\"\n\
bg = \"#0b0e14\"\n\
panel = \"#131721\"\n\
comment = \"#565b66\"\n\
accent = \"#e6b450\"\n\
string = \"#aad94c\"\n\
func = \"#ffb454\"\n\
keyword = \"#ff8f40\"\n\
entity = \"#59c2ff\"\n\
constant = \"#d2a6ff\"\n\
error = \"#d95757\"\n\
tag = \"#39bae6\"\n\
\n\
[styles]\n\
paragraph = { fg = \"fg\" }\n\
bold = { fg = \"accent\", bold = true }\n\
italic = { fg = \"func\", italic = true }\n\
strikeout = { fg = \"comment\", strikethrough = true }\n\
inline_code = { fg = \"string\", bg = \"panel\" }\n\
code_block = { fg = \"fg\", bg = \"panel\" }\n\
heading1 = { fg = \"keyword\", bold = true }\n\
heading2 = { fg = \"entity\", bold = true }\n\
heading3 = { fg = \"func\", bold = true }\n\
heading4 = { fg = \"constant\" }\n\
heading5 = { fg = \"tag\" }\n\
heading6 = { fg = \"comment\" }\n\
link = { fg = \"entity\", underline = true }\n\
table = { fg = \"comment\" }\n\
bullet = { fg = \"accent\" }\n\
quote_mark = { fg = \"string\" }\n\
horizontal_rule = { fg = \"comment\" }\n\
ellipsis = { fg = \"comment\" }\n";

/// The built-in `ayu_light` theme.
pub const AYU_LIGHT: &'static str = "[colors]\n\
fg = \"#5c6166\"\n\
bg = \"#fcfcfc\"\n\
panel = \"#f3f4f5\"\n\
comment = \"#adaeb1\"\n\
accent = \"#ffaa33\"\n\
string = \"#86b300\"\n\
func = \"#f2ae49\"\n\
keyword = \"#fa8d3e\"\n\
entity = \"#399ee6\"\n\
constant = \"#a37acc\"\n\
error = \"#e65050\"\n\
tag = \"#55b4d4\"\n\
\n\
[styles]\n\
paragraph = { fg = \"fg\" }\n\
bold = { fg = \"keyword\", bold = true }\n\
italic = { fg = \"func\", italic = true }\n\
strikeout = { fg = \"comment\", strikethrough = true }\n\
inline_code = { fg = \"string\", bg = \"panel\" }\n\
code_block = { fg = \"fg\", bg = \"panel\" }\n\
heading1 = { fg = \"keyword\", bold = true }\n\
heading2 = { fg = \"entity\", bold = true }\n\
heading3 = { fg = \"func\", bold = true }\n\
heading4 = { fg = \"constant\" }\n\
heading5 = { fg = \"tag\" }\n\
heading6 = { fg = \"comment\" }\n\
link = { fg = \"entity\", underline = true }\n\
table = { fg = \"comment\" }\n\
bullet = { fg = \"accent\" }\n\
quote_mark = { fg = \"string\" }\n\
horizontal_rule = { fg = \"comment\" }\n\
ellipsis = { fg = \"comment\" }\n";

/// The built-in `ayu_mirage` theme.
pub const AYU_MIRAGE: &'static str = "[colors]\n\
fg = \"#cccac2\"\n\
bg = \"#1f2430\"\n\
panel = \"#1c212b\"\n\
comment = \"#5c6773\"\n\
accent = \"#ffcc66\"\n\
string = \"#d5ff80\"\n\
func = \"#ffd173\"\n\
keyword = \"#ffad66\"\n\
entity = \"#73d0ff\"\n\
constant = \"#dfbfff\"\n\
error = \"#ff6666\"\n\
tag = \"#5ccfe6\"\n\
\n\
[styles]\n\
paragraph = { fg = \"fg\" }\n\
bold = { fg = \"accent\", bold = true }\n\
italic = { fg = \"func\", italic = true }\n\
strikeout = { fg = \"comment\", strikethrough = true }\n\
inline_code = { fg = \"string\", bg = \"panel\" }\n\
code_block = { fg = \"fg\", bg = \"panel\" }\n\
heading1 = { fg = \"keyword\", bold = true }\n\
heading2 = { fg = \"entity\", bold = true }\n\
heading3 = { fg = \"func\", bold = true }\n\
heading4 = { fg = \"constant\" }\n\
heading5 = { fg = \"tag\" }\n\
heading6 = { fg = \"comment\" }\n\
link = { fg = \"entity\", underline = true }\n\
table = { fg = \"comment\" }\n\
bullet = { fg = \"accent\" }\n\
quote_mark = { fg = \"string\" }\n\
horizontal_rule = { fg = \"comment\" }\n\
ellipsis = { fg = \"comment\" }\n";

/// The built-in `catppuccin_mocha` theme.
pub const CATPPUCCIN_MOCHA: &'static str = "[colors]\n\
text = \"#cdd6f4\"\n\
base = \"#1e1e2e\"\n\
mantle = \"#181825\"\n\
surface0 = \"#313244\"\n\
overlay0 = \"#6c7086\"\n\
red = \"#f38ba8\"\n\
peach = \"#fab387\"\n\
yellow = \"#f9e2af\"\n\
green = \"#a6e3a1\"\n\
teal = \"#94e2d5\"\n\
blue = \"#89b4fa\"\n\
mauve = \"#cba6f7\"\n\
lavender = \"#b4befe\"\n\
\n\
[styles]\n\
paragraph = { fg = \"text\" }\n\
bold = { fg = \"peach\", bold = true }\n\
italic = { fg = \"yellow\", italic = true }\n\
strikeout = { fg = \"overlay0\", strikethrough = true }\n\
inline_code = { fg = \"green\", bg = \"surface0\" }\n\
code_block = { fg = \"text\", bg = \"mantle\" }\n\
heading1 = { fg = \"red\", bold = true }\n\
heading2 = { fg = \"peach\", bold = true }\n\
heading3 = { fg = \"yellow\", bold = true }\n\
heading4 = { fg = \"green\" }\n\
heading5 = { fg = \"teal\" }\n\
heading6 = { fg = \"lavender\" }\n\
link = { fg = \"blue\", underline = true }\n\
table = { fg = \"overlay0\" }\n\
bullet = { fg = \"mauve\" }\n\
quote_mark = { fg = \"teal\" }\n\
horizontal_rule = { fg = \"overlay0\" }\n\
ellipsis = { fg = \"overlay0\" }\n";

/// The built-in `dracula` theme.
pub const DRACULA: &'static str = "[colors]\n\
fg = \"#f8f8f2\"\n\
bg = \"#282a36\"\n\
current = \"#44475a\"\n\
comment = \"#6272a4\"\n\
cyan = \"#8be9fd\"\n\
green = \"#50fa7b\"\n\
orange = \"#ffb86c\"\n\
pink = \"#ff79c6\"\n\
purple = \"#bd93f9\"\n\
red = \"#ff5555\"\n\
yellow = \"#f1fa8c\"\n\
\n\
[styles]\n\
paragraph = { fg = \"fg\" }\n\
bold = { fg = \"orange\", bold = true }\n\
italic = { fg = \"yellow\", italic = true }\n\
strikeout = { fg = \"comment\", strikethrough = true }\n\
inline_code = { fg = \"green\", bg = \"current\" }\n\
code_block = { fg = \"fg\", bg = \"current\" }\n\
heading1 = { fg = \"purple\", bold = true }\n\
heading2 = { fg = \"pink\", bold = true }\n\
heading3 = { fg = \"cyan\", bold = true }\n\
heading4 = { fg = \"green\" }\n\
heading5 = { fg = \"orange\" }\n\
heading6 = { fg = \"comment\" }\n\
link = { fg = \"cyan\", underline = true }\n\
table = { fg = \"comment\" }\n\
bullet = { fg = \"pink\" }\n\
quote_mark = { fg = \"purple\" }\n\
horizontal_rule = { fg = \"comment\" }\n\
ellipsis = { fg = \"comment\" }\n";

/// The built-in `gruvbox_dark` theme.
pub const GRUVBOX_DARK: &'static str = "[colors]\n\
fg = \"#ebdbb2\"\n\
bg = \"#282828\"\n\
bg1 = \"#3c3836\"\n\
gray = \"#928374\"\n\
red = \"#fb4934\"\n\
green = \"#b8bb26\"\n\
yellow = \"#fabd2f\"\n\
blue = \"#83a598\"\n\
purple = \"#d3869b\"\n\
aqua = \"#8ec07c\"\n\
orange = \"#fe8019\"\n\
\n\
[styles]\n\
paragraph = { fg = \"fg\" }\n\
bold = { fg = \"orange\", bold = true }\n\
italic = { fg = \"yellow\", italic = true }\n\
strikeout = { fg = \"gray\", strikethrough = true }\n\
inline_code = { fg = \"green\", bg = \"bg1\" }\n\
code_block = { fg = \"fg\", bg = \"bg1\" }\n\
heading1 = { fg = \"red\", bold = true }\n\
heading2 = { fg = \"orange\", bold = true }\n\
heading3 = { fg = \"yellow\", bold = true }\n\
heading4 = { fg = \"green\" }\n\
heading5 = { fg = \"aqua\" }\n\
heading6 = { fg = \"gray\" }\n\
link = { fg = \"blue\", underline = true }\n\
table = { fg = \"gray\" }\n\
bullet = { fg = \"purple\" }\n\
quote_mark = { fg = \"aqua\" }\n\
horizontal_rule = { fg = \"gray\" }\n\
ellipsis = { fg = \"gray\" }\n";

/// The built-in `nord` theme.
pub const NORD: &'static str = "[colors]\n\
nord0 = \"#2e3440\"\n\
nord1 = \"#3b4252\"\n\
nord3 = \"#4c566a\"\n\
nord4 = \"#d8dee9\"\n\
nord6 = \"#eceff4\"\n\
nord7 = \"#8fbcbb\"\n\
nord8 = \"#88c0d0\"\n\
nord9 = \"#81a1c1\"\n\
nord10 = \"#5e81ac\"\n\
nord11 = \"#bf616a\"\n\
nord12 = \"#d08770\"\n\
nord13 = \"#ebcb8b\"\n\
nord14 = \"#a3be8c\"\n\
nord15 = \"#b48ead\"\n\
\n\
[styles]\n\
paragraph = { fg = \"nord4\" }\n\
bold = { fg = \"nord6\", bold = true }\n\
italic = { fg = \"nord13\", italic = true }\n\
strikeout = { fg = \"nord3\", strikethrough = true }\n\
inline_code = { fg = \"nord14\", bg = \"nord1\" }\n\
code_block = { fg = \"nord4\", bg = \"nord1\" }\n\
heading1 = { fg = \"nord8\", bold = true }\n\
heading2 = { fg = \"nord9\", bold = true }\n\
heading3 = { fg = \"nord7\", bold = true }\n\
heading4 = { fg = \"nord14\" }\n\
heading5 = { fg = \"nord15\" }\n\
heading6 = { fg = \"nord3\" }\n\
link = { fg = \"nord8\", underline = true }\n\
table = { fg = \"nord3\" }\n\
bullet = { fg = \"nord9\" }\n\
quote_mark = { fg = \"nord10\" }\n\
horizontal_rule = { fg = \"nord3\" }\n\
ellipsis = { fg = \"nord3\" }\n";

/// The built-in `onedark` theme.
pub const ONEDARK: &'static str = "[colors]\n\
fg = \"#abb2bf\"\n\
bg = \"#282c34\"\n\
dark = \"#21252b\"\n\
gray = \"#5c6370\"\n\
red = \"#e06c75\"\n\
green = \"#98c379\"\n\
yellow = \"#e5c07b\"\n\
blue = \"#61afef\"\n\
purple = \"#c678dd\"\n\
cyan = \"#56b6c2\"\n\
orange = \"#d19a66\"\n\
\n\
[styles]\n\
paragraph = { fg = \"fg\" }\n\
bold = { fg = \"yellow\", bold = true }\n\
italic = { fg = \"purple\", italic = true }\n\
strikeout = { fg = \"gray\", strikethrough = true }\n\
inline_code = { fg = \"green\", bg = \"dark\" }\n\
code_block = { fg = \"fg\", bg = \"dark\" }\n\
heading1 = { fg = \"red\", bold = true }\n\
heading2 = { fg = \"blue\", bold = true }\n\
heading3 = { fg = \"purple\", bold = true }\n\
heading4 = { fg = \"yellow\" }\n\
heading5 = { fg = \"cyan\" }\n\
heading6 = { fg = \"gray\" }\n\
link = { fg = \"blue\", underline = true }\n\
table = { fg = \"gray\" }\n\
bullet = { fg = \"blue\" }\n\
quote_mark = { fg = \"green\" }\n\
horizontal_rule = { fg = \"gray\" }\n\
ellipsis = { fg = \"gray\" }\n";

/// The built-in `solarized_light` theme.
pub const SOLARIZED_LIGHT: &'static str = "[colors]\n\
base00 = \"#657b83\"\n\
base01 = \"#586e75\"\n\
base1 = \"#93a1a1\"\n\
base2 = \"#eee8d5\"\n\
base3 = \"#fdf6e3\"\n\
yellow = \"#b58900\"\n\
orange = \"#cb4b16\"\n\
red = \"#dc322f\"\n\
magenta = \"#d33682\"\n\
violet = \"#6c71c4\"\n\
blue = \"#268bd2\"\n\
cyan = \"#2aa198\"\n\
green = \"#859900\"\n\
\n\
[styles]\n\
paragraph = { fg = \"base00\" }\n\
bold = { fg = \"base01\", bold = true }\n\
italic = { fg = \"violet\", italic = true }\n\
strikeout = { fg = \"base1\", strikethrough = true }\n\
inline_code = { fg = \"orange\", bg = \"base2\" }\n\
code_block = { fg = \"base00\", bg = \"base2\" }\n\
heading1 = { fg = \"red\", bold = true }\n\
heading2 = { fg = \"orange\", bold = true }\n\
heading3 = { fg = \"yellow\", bold = true }\n\
heading4 = { fg = \"green\" }\n\
heading5 = { fg = \"cyan\" }\n\
heading6 = { fg = \"base1\" }\n\
link = { fg = \"blue\", underline = true }\n\
table = { fg = \"base1\" }\n\
bullet = { fg = \"blue\" }\n\
quote_mark = { fg = \"cyan\" }\n\
horizontal_rule = { fg = \"base1\" }\n\
ellipsis = { fg = \"base1\" }\n";

/// The built-in `tokyonight` theme.
pub const TOKYONIGHT: &'static str = "[colors]\n\
fg = \"#c0caf5\"\n\
bg = \"#1a1b26\"\n\
bg_dark = \"#16161e\"\n\
bg_hl = \"#292e42\"\n\
comment = \"#565f89\"\n\
blue = \"#7aa2f7\"\n\
cyan = \"#7dcfff\"\n\
magenta = \"#bb9af7\"\n\
orange = \"#ff9e64\"\n\
yellow = \"#e0af68\"\n\
green = \"#9ece6a\"\n\
red = \"#f7768e\"\n\
teal = \"#1abc9c\"\n\
\n\
[styles]\n\
paragraph = { fg = \"fg\" }\n\
bold = { fg = \"orange\", bold = true }\n\
italic = { fg = \"yellow\", italic = true }\n\
strikeout = { fg = \"comment\", strikethrough = true }\n\
inline_code = { fg = \"green\", bg = \"bg_hl\" }\n\
code_block = { fg = \"fg\", bg = \"bg_dark\" }\n\
heading1 = { fg = \"red\", bold = true }\n\
heading2 = { fg = \"blue\", bold = true }\n\
heading3 = { fg = \"magenta\", bold = true }\n\
heading4 = { fg = \"cyan\" }\n\
heading5 = { fg = \"teal\" }\n\
heading6 = { fg = \"comment\" }\n\
link = { fg = \"blue\", underline = true }\n\
table = { fg = \"comment\" }\n\
bullet = { fg = \"magenta\" }\n\
quote_mark = { fg = \"teal\" }\n\
horizontal_rule = { fg = \"comment\" }\n\
ellipsis = { fg = \"comment\" }\n";

} // verus!
