//! Ligature configuration for code rendering.
//!
//! A configuration holds a global on/off switch and per-font overrides.  The
//! overrides form an association list looked up by font name, kept free of
//! duplicate keys; the first matching entry decides.

use vstd::prelude::*;

verus! {

/// The override stored for `name`: the value of the first entry whose key
/// equals the name, if any.
pub open spec fn override_of(s: Seq<(String, bool)>, name: Seq<char>) -> Option<bool>
    decreases s.len(),
{
    if s.len() == 0 {
        None
    } else if s[0].0@ == name {
        Some(s[0].1)
    } else {
        override_of(s.drop_first(), name)
    }
}

/// Looking a name up in a concatenation tries the left part first.
pub proof fn lemma_override_of_concat(s1: Seq<(String, bool)>, s2: Seq<(String, bool)>, name: Seq<char>)
    ensures
        override_of(s1 + s2, name) == if override_of(s1, name) is Some {
            override_of(s1, name)
        } else {
            override_of(s2, name)
        },
    decreases s1.len(),
{
    if s1.len() == 0 {
        assert(s1 + s2 =~= s2);
    } else {
        assert((s1 + s2).drop_first() =~= s1.drop_first() + s2);
        lemma_override_of_concat(s1.drop_first(), s2, name);
    }
}

/// A lookup misses exactly when no entry has the name as its key.
pub proof fn lemma_override_of_none(s: Seq<(String, bool)>, name: Seq<char>)
    ensures
        override_of(s, name) is None <==> forall|j: int| 0 <= j < s.len() ==> s[j].0@ != name,
    decreases s.len(),
{
    if s.len() > 0 {
        let d = s.drop_first();
        lemma_override_of_none(d, name);
        if override_of(s, name) is None {
            assert(s[0].0@ != name);
            assert forall|j: int| 0 <= j < s.len() implies s[j].0@ != name by {
                if j > 0 {
                    assert(d[j - 1].0@ != name);
                }
            }
        } else {
            if forall|j: int| 0 <= j < s.len() ==> s[j].0@ != name {
                assert(s[0].0@ != name);
                assert forall|j: int| 0 <= j < d.len() implies d[j].0@ != name by {
                    assert(d[j] == s[j + 1]);
                }
                assert(override_of(d, name) is None);
                assert(false);
            }
        }
    }
}

/// When the first entry with the name sits at index `i`, the lookup yields
/// its value.
pub proof fn lemma_override_of_first(s: Seq<(String, bool)>, name: Seq<char>, i: int)
    requires
        0 <= i < s.len(),
        s[i].0@ == name,
        forall|j: int| 0 <= j < i ==> s[j].0@ != name,
    ensures
        override_of(s, name) == Some(s[i].1),
    decreases i,
{
    if i > 0 {
        lemma_override_of_first(s.drop_first(), name, i - 1);
    }
}

/// Character-for-character string equality.
fn str_eq_chars(a: &str, b: &str) -> (r: bool)
    ensures
        r == (a@ == b@),
{
    let an = a.unicode_len();
    let bn = b.unicode_len();
    if an != bn {
        proof {
            assert(a@.len() != b@.len());
        }
        return false;
    }
    let mut i: usize = 0;
    while i < an
        invariant
            an == a@.len(),
            an == b@.len(),
            i <= an,
            forall|j: int| 0 <= j < i ==> a@[j] == b@[j],
        decreases an - i,
    {
        if a.get_char(i) != b.get_char(i) {
            return false;
        }
        i = i + 1;
    }
    proof {
        assert(a@ =~= b@);
    }
    true
}

/// Ligature configuration: a global switch plus per-font overrides.
#[derive(Debug, Clone)]
pub struct LigatureConfig {
    /// Whether ligatures are enabled where no override applies.
    pub enabled: bool,
    /// Font-specific overrides, first match wins; kept free of duplicate
    /// keys.
    pub font_overrides: Vec<(String, bool)>,
}

impl LigatureConfig {
    /// The override stored for `name`, if any.
    pub open spec fn override_for(&self, name: Seq<char>) -> Option<bool> {
        override_of(self.font_overrides@, name)
    }

    /// Whether ligatures are enabled for a font: its override if present,
    /// the global switch otherwise.
    pub open spec fn enabled_for(&self, name: Seq<char>) -> bool {
        match self.override_for(name) {
            Some(b) => b,
            None => self.enabled,
        }
    }

    /// Well-formedness: no two overrides share a key.
    pub open spec fn wf(&self) -> bool {
        forall|i: int, j: int|
            0 <= i < j < self.font_overrides@.len() ==> self.font_overrides@[i].0@
                != self.font_overrides@[j].0@
    }

    /// The default configuration: ligatures on, no overrides.
    pub fn new() -> (r: Self)
        ensures
            r.wf(),
            r.enabled,
            r.font_overrides@.len() == 0,
    {
        LigatureConfig { enabled: true, font_overrides: Vec::new() }
    }

    /// A configuration with ligatures enabled globally.
    pub fn enabled() -> (r: Self)
        ensures
            r.wf(),
            r.enabled,
            r.font_overrides@.len() == 0,
    {
        LigatureConfig { enabled: true, font_overrides: Vec::new() }
    }

    /// A configuration with ligatures disabled globally.
    pub fn disabled() -> (r: Self)
        ensures
            r.wf(),
            !r.enabled,
            r.font_overrides@.len() == 0,
    {
        LigatureConfig { enabled: false, font_overrides: Vec::new() }
    }

    /// Whether ligatures are enabled for `font_name`: the font's override
    /// if one is stored, the global switch otherwise.
    pub fn is_enabled_for_font(&self, font_name: &str) -> (r: bool)
        ensures
            r == self.enabled_for(font_name@),
    {
        let mut i: usize = 0;
        while i < self.font_overrides.len()
            invariant
                i <= self.font_overrides@.len(),
                forall|j: int| 0 <= j < i ==> self.font_overrides@[j].0@ != font_name@,
            decreases self.font_overrides@.len() - i,
        {
            if str_eq_chars(self.font_overrides[i].0.as_str(), font_name) {
                proof {
                    lemma_override_of_first(self.font_overrides@, font_name@, i as int);
                }
                return self.font_overrides[i].1;
            }
            i = i + 1;
        }
        proof {
            lemma_override_of_none(self.font_overrides@, font_name@);
        }
        self.enabled
    }

    /// Remove the override for `font_name`, if one is stored.  Afterwards
    /// the font falls back to the global switch; other overrides are
    /// untouched.
    pub fn remove_font_override(&mut self, font_name: &str)
        requires
            old(self).wf(),
        ensures
            final(self).wf(),
            final(self).enabled == old(self).enabled,
            final(self).override_for(font_name@) is None,
            forall|k: Seq<char>|
                k != font_name@ ==> final(self).override_for(k) == old(self).override_for(k),
    {
        let ghost s = self.font_overrides@;
        let mut i: usize = 0;
        while i < self.font_overrides.len()
            invariant
                old(self).wf(),
                self == old(self),
                s == self.font_overrides@,
                i <= s.len(),
                forall|j: int| 0 <= j < i ==> s[j].0@ != font_name@,
            decreases s.len() - i,
        {
            if str_eq_chars(self.font_overrides[i].0.as_str(), font_name) {
                self.font_overrides.remove(i);
                proof {
                    let pre = s.subrange(0, i as int);
                    let post = s.subrange(i as int + 1, s.len() as int);
                    assert(self.font_overrides@ =~= pre + post);
                    assert(s =~= pre + (seq![s[i as int]] + post));
                    lemma_override_of_none(pre, font_name@);
                    assert forall|j: int| 0 <= j < post.len() implies post[j].0@
                        != font_name@ by {
                        assert(post[j] == s[i as int + 1 + j]);
                        assert(old(self).font_overrides@[i as int].0@ != old(
                            self,
                        ).font_overrides@[i as int + 1 + j].0@);
                    }
                    lemma_override_of_none(post, font_name@);
                    lemma_override_of_concat(pre, post, font_name@);
                    assert(self.override_for(font_name@) is None);
                    assert forall|k: Seq<char>| k != font_name@ implies override_of(
                        pre + post,
                        k,
                    ) == override_of(s, k) by {
                        lemma_override_of_concat(pre, post, k);
                        lemma_override_of_concat(pre, seq![s[i as int]] + post, k);
                        assert(override_of(seq![s[i as int]] + post, k) == override_of(
                            (seq![s[i as int]] + post).drop_first(),
                            k,
                        ));
                        assert((seq![s[i as int]] + post).drop_first() =~= post);
                    }
                    assert forall|a: int, b: int|
                        0 <= a < b < self.font_overrides@.len() implies self.font_overrides@[a].0@
                        != self.font_overrides@[b].0@ by {
                        let s2 = pre + post;
                        let oa = if a < i as int {
                            a
                        } else {
                            a + 1
                        };
                        let ob = if b < i as int {
                            b
                        } else {
                            b + 1
                        };
                        assert(s2[a] == s[oa]);
                        assert(s2[b] == s[ob]);
                        assert(old(self).font_overrides@[oa].0@ != old(
                            self,
                        ).font_overrides@[ob].0@);
                    }
                }
                return ;
            }
            i = i + 1;
        }
        proof {
            lemma_override_of_none(s, font_name@);
        }
    }

    /// Store an override for `font_name`, replacing any previous one.
    /// Other overrides and the global switch are untouched.
    pub fn set_font_override(&mut self, font_name: String, enabled: bool)
        requires
            old(self).wf(),
        ensures
            final(self).wf(),
            final(self).enabled == old(self).enabled,
            final(self).override_for(font_name@) == Some(enabled),
            forall|k: Seq<char>|
                k != font_name@ ==> final(self).override_for(k) == old(self).override_for(k),
    {
        self.remove_font_override(font_name.as_str());
        let ghost removed = self.font_overrides@;
        let ghost name = font_name@;
        self.font_overrides.insert(0, (font_name, enabled));
        proof {
            let s2 = self.font_overrides@;
            assert(s2 =~= seq![s2[0]] + removed);
            assert(s2[0].0@ == name && s2[0].1 == enabled);
            assert(s2.drop_first() =~= removed);
            assert(self.override_for(name) == Some(enabled));
            assert forall|k: Seq<char>| k != name implies override_of(s2, k) == override_of(
                removed,
                k,
            ) by {
                assert(override_of(s2, k) == override_of(s2.drop_first(), k));
            }
            lemma_override_of_none(removed, name);
            assert forall|a: int, b: int|
                0 <= a < b < s2.len() implies s2[a].0@ != s2[b].0@ by {
                if a == 0 {
                    assert(s2[b] == removed[b - 1]);
                } else {
                    assert(s2[a] == removed[a - 1]);
                    assert(s2[b] == removed[b - 1]);
                }
            }
        }
    }

    /// The global switch.
    pub fn is_globally_enabled(&self) -> (r: bool)
        ensures
            r == self.enabled,
    {
        self.enabled
    }

    /// Set the global switch.
    pub fn set_globally_enabled(&mut self, enabled: bool)
        ensures
            final(self).enabled == enabled,
            final(self).font_overrides == old(self).font_overrides,
    {
        self.enabled = enabled;
    }

    /// A configuration for code rendering: ligatures on globally, with
    /// overrides enabling them for font families known to ship good
    /// ligatures and disabling them for families known not to.
    #[verifier::rlimit(100)]
    pub fn with_programming_defaults() -> (r: Self)
        ensures
            r.wf(),
            r.enabled,
            r.override_for("FiraCode"@) == Some(true),
            r.override_for("Fira Code"@) == Some(true),
            r.override_for("FiraCode Nerd Font"@) == Some(true),
            r.override_for("FiraCode Nerd Font Mono"@) == Some(true),
            r.override_for("JetBrains Mono"@) == Some(true),
            r.override_for("JetBrainsMono"@) == Some(true),
            r.override_for("JetBrains Mono Nerd Font"@) == Some(true),
            r.override_for("Cascadia Code"@) == Some(true),
            r.override_for("CascadiaCode"@) == Some(true),
            r.override_for("Cascadia Code Nerd Font"@) == Some(true),
            r.override_for("Iosevka"@) == Some(true),
            r.override_for("Iosevka Term"@) == Some(true),
            r.override_for("Iosevka Nerd Font"@) == Some(true),
            r.override_for("Victor Mono"@) == Some(true),
            r.override_for("VictorMono"@) == Some(true),
            r.override_for("Monaco"@) == Some(false),
            r.override_for("Consolas"@) == Some(false),
            r.override_for("Menlo"@) == Some(false),
            r.override_for("Courier"@) == Some(false),
            r.override_for("Courier New"@) == Some(false),
            r.override_for("Ubuntu Mono"@) == Some(false),
            r.override_for("Liberation Mono"@) == Some(false),
    {
        proof {
            reveal_strlit("FiraCode");
            reveal_strlit("Fira Code");
            reveal_strlit("FiraCode Nerd Font");
            reveal_strlit("FiraCode Nerd Font Mono");
            reveal_strlit("JetBrains Mono");
            reveal_strlit("JetBrainsMono");
            reveal_strlit("JetBrains Mono Nerd Font");
            reveal_strlit("Cascadia Code");
            reveal_strlit("CascadiaCode");
            reveal_strlit("Cascadia Code Nerd Font");
            reveal_strlit("Iosevka");
            reveal_strlit("Iosevka Term");
            reveal_strlit("Iosevka Nerd Font");
            reveal_strlit("Victor Mono");
            reveal_strlit("VictorMono");
            reveal_strlit("Monaco");
            reveal_strlit("Consolas");
            reveal_strlit("Menlo");
            reveal_strlit("Courier");
            reveal_strlit("Courier New");
            reveal_strlit("Ubuntu Mono");
            reveal_strlit("Liberation Mono");
            assert("FiraCode"@.len() == 8);
            assert("Fira Code"@.len() == 9);
            assert("FiraCode Nerd Font"@.len() == 18);
            assert("FiraCode Nerd Font Mono"@.len() == 23);
            assert("JetBrains Mono"@.len() == 14);
            assert("JetBrainsMono"@.len() == 13);
            assert("JetBrains Mono Nerd Font"@.len() == 24);
            assert("Cascadia Code"@.len() == 13);
            assert("CascadiaCode"@.len() == 12);
            assert("Cascadia Code Nerd Font"@.len() == 23);
            assert("Iosevka"@.len() == 7);
            assert("Iosevka Term"@.len() == 12);
            assert("Iosevka Nerd Font"@.len() == 17);
            assert("Victor Mono"@.len() == 11);
            assert("VictorMono"@.len() == 10);
            assert("Monaco"@.len() == 6);
            assert("Consolas"@.len() == 8);
            assert("Menlo"@.len() == 5);
            assert("Courier"@.len() == 7);
            assert("Courier New"@.len() == 11);
            assert("Ubuntu Mono"@.len() == 11);
            assert("Liberation Mono"@.len() == 15);
            assert("FiraCode"@[0] != "Consolas"@[0]);
            assert("FiraCode"@ != "Consolas"@);
            assert("JetBrainsMono"@[0] != "Cascadia Code"@[0]);
            assert("JetBrainsMono"@ != "Cascadia Code"@);
            assert("FiraCode Nerd Font Mono"@[0] != "Cascadia Code Nerd Font"@[0]);
            assert("FiraCode Nerd Font Mono"@ != "Cascadia Code Nerd Font"@);
            assert("CascadiaCode"@[0] != "Iosevka Term"@[0]);
            assert("CascadiaCode"@ != "Iosevka Term"@);
            assert("Iosevka"@[0] != "Courier"@[0]);
            assert("Iosevka"@ != "Courier"@);
            assert("Victor Mono"@[0] != "Courier New"@[0]);
            assert("Victor Mono"@ != "Courier New"@);
            assert("Victor Mono"@[0] != "Ubuntu Mono"@[0]);
            assert("Victor Mono"@ != "Ubuntu Mono"@);
            assert("Courier New"@[0] != "Ubuntu Mono"@[0]);
            assert("Courier New"@ != "Ubuntu Mono"@);
        }
        let mut config = Self::enabled();
        config.set_font_override(String::from_str("FiraCode"), true);
        config.set_font_override(String::from_str("Fira Code"), true);
        config.set_font_override(String::from_str("FiraCode Nerd Font"), true);
        config.set_font_override(String::from_str("FiraCode Nerd Font Mono"), true);
        config.set_font_override(String::from_str("JetBrains Mono"), true);
        config.set_font_override(String::from_str("JetBrainsMono"), true);
        config.set_font_override(String::from_str("JetBrains Mono Nerd Font"), true);
        config.set_font_override(String::from_str("Cascadia Code"), true);
        config.set_font_override(String::from_str("CascadiaCode"), true);
        config.set_font_override(String::from_str("Cascadia Code Nerd Font"), true);
        proof {
            assert(config.override_for("FiraCode"@) == Some(true));
            assert(config.override_for("Fira Code"@) == Some(true));
            assert(config.override_for("FiraCode Nerd Font"@) == Some(true));
            assert(config.override_for("FiraCode Nerd Font Mono"@) == Some(true));
        }
        config.set_font_override(String::from_str("Iosevka"), true);
        config.set_font_override(String::from_str("Iosevka Term"), true);
        config.set_font_override(String::from_str("Iosevka Nerd Font"), true);
        config.set_font_override(String::from_str("Victor Mono"), true);
        config.set_font_override(String::from_str("VictorMono"), true);
        config.set_font_override(String::from_str("Monaco"), false);
        proof {
            assert(config.override_for("FiraCode"@) == Some(true));
            assert(config.override_for("Fira Code"@) == Some(true));
            assert(config.override_for("JetBrains Mono"@) == Some(true));
            assert(config.override_for("JetBrainsMono"@) == Some(true));
        }
        config.set_font_override(String::from_str("Consolas"), false);
        config.set_font_override(String::from_str("Menlo"), false);
        config.set_font_override(String::from_str("Courier"), false);
        config.set_font_override(String::from_str("Courier New"), false);
        config.set_font_override(String::from_str("Ubuntu Mono"), false);
        config.set_font_override(String::from_str("Liberation Mono"), false);
        config
    }

    /// Whether the font's name alone suggests good ligature support: its
    /// lowercased form carries one of the known family markers.
    pub fn font_has_good_ligature_support(font_name: &str) -> (r: bool)
        ensures
            r == suggests_ligatures(lower_of(font_name@)),
    {
        let font_lower = font_name.to_lowercase();
        name_suggests_ligatures(font_lower.as_str())
    }
}

impl Default for LigatureConfig {
    /// The default configuration: ligatures on, no overrides.
    fn default() -> (r: Self)
        ensures
            r.wf(),
            r.enabled,
            r.font_overrides@.len() == 0,
    {
        Self::new()
    }
}

/// The Unicode lowercasing of a character sequence, as `str::to_lowercase`
/// computes it.  The result depends on the characters alone.
pub uninterp spec fn lower_of(s: Seq<char>) -> Seq<char>;

/// Relies on `str::to_lowercase`: the result is a pure function of the
/// input's characters.
pub assume_specification[ str::to_lowercase ](s: &str) -> (r: String)
    ensures
        r@ == lower_of(s@),
;

/// Whether `needle` occurs as a contiguous run inside `hay`.
pub open spec fn contains_seq(hay: Seq<char>, needle: Seq<char>) -> bool {
    exists|i: int|
        0 <= i <= hay.len() - needle.len() && #[trigger] hay.subrange(i, i + needle.len())
            == needle
}

/// Decide whether `needle` occurs inside `hay`.
fn contains_chars(hay: &str, needle: &str) -> (r: bool)
    ensures
        r == contains_seq(hay@, needle@),
{
    let hn = hay.unicode_len();
    let nn = needle.unicode_len();
    if nn > hn {
        return false;
    }
    if nn == 0 {
        proof {
            let n = needle@.len() as int;
            assert(hay@.subrange(0, 0 + n) =~= needle@);
            assert(contains_seq(hay@, needle@));
        }
        return true;
    }
    let mut i: usize = 0;
    while i <= hn - nn
        invariant
            hn == hay@.len(),
            nn == needle@.len(),
            nn <= hn,
            1 <= nn,
            i <= hn - nn + 1,
            forall|ii: int|
                0 <= ii < i ==> #[trigger] hay@.subrange(ii, ii + needle@.len()) != needle@,
        decreases hn - nn + 1 - i,
    {
        let mut j: usize = 0;
        let mut matching = true;
        while j < nn && matching
            invariant
                hn == hay@.len(),
                nn == needle@.len(),
                nn <= hn,
                i <= hn - nn,
                j <= nn,
                matching ==> forall|k: int| 0 <= k < j ==> hay@[i + k] == needle@[k],
                !matching ==> hay@.subrange(i as int, i + needle@.len()) != needle@,
            decreases nn - j, if matching {
                1int
            } else {
                0int
            },
        {
            if hay.get_char(i + j) != needle.get_char(j) {
                matching = false;
                proof {
                    assert(hay@.subrange(i as int, i + needle@.len())[j as int] != needle@[
                        j as int
                    ]);
                }
            } else {
                j = j + 1;
            }
        }
        if matching {
            proof {
                assert(hay@.subrange(i as int, i + needle@.len()) =~= needle@);
            }
            return true;
        }
        proof {
            assert(hay@.subrange(i as int, i + needle@.len()) != needle@);
        }
        i = i + 1;
    }
    false
}

/// Whether a lowercased font name carries one of the markers of a font
/// family with good ligature support.
pub open spec fn suggests_ligatures(s: Seq<char>) -> bool {
    ||| contains_seq(s, "firacode"@)
    ||| contains_seq(s, "fira code"@)
    ||| contains_seq(s, "jetbrains"@)
    ||| contains_seq(s, "jetbrainsmono"@)
    ||| contains_seq(s, "cascadia"@)
    ||| contains_seq(s, "cascadiacode"@)
    ||| contains_seq(s, "iosevka"@)
    ||| contains_seq(s, "victor"@)
    ||| contains_seq(s, "victormono"@)
    ||| contains_seq(s, "hack"@)
    ||| contains_seq(s, "source code pro"@)
    ||| contains_seq(s, "sourcecodepro"@)
}

/// Decide whether an already-lowercased font name carries one of the
/// ligature markers.
pub fn name_suggests_ligatures(lowered: &str) -> (r: bool)
    ensures
        r == suggests_ligatures(lowered@),
{
    contains_chars(lowered, "firacode") || contains_chars(lowered, "fira code")
        || contains_chars(lowered, "jetbrains") || contains_chars(lowered, "jetbrainsmono")
        || contains_chars(lowered, "cascadia") || contains_chars(lowered, "cascadiacode")
        || contains_chars(lowered, "iosevka") || contains_chars(lowered, "victor")
        || contains_chars(lowered, "victormono") || contains_chars(lowered, "hack")
        || contains_chars(lowered, "source code pro") || contains_chars(
        lowered,
        "sourcecodepro",
    )
}

/// Builder for a ligature configuration.
#[derive(Debug)]
pub struct LigatureConfigBuilder {
    config: LigatureConfig,
}

impl LigatureConfigBuilder {
    /// The configuration built so far.
    pub closed spec fn config_spec(&self) -> LigatureConfig {
        self.config
    }

    /// Start from the default configuration.
    pub fn new() -> (r: Self)
        ensures
            r.config_spec().wf(),
            r.config_spec().enabled,
            r.config_spec().font_overrides@.len() == 0,
    {
        LigatureConfigBuilder { config: LigatureConfig::new() }
    }

    /// Set the global switch.
    pub fn enabled(self, enabled: bool) -> (r: Self)
        ensures
            r.config_spec().enabled == enabled,
            r.config_spec().font_overrides == self.config_spec().font_overrides,
    {
        let mut this = self;
        this.config.enabled = enabled;
        this
    }

    /// Store a font-specific override.
    pub fn font_override(self, font_name: String, enabled: bool) -> (r: Self)
        requires
            self.config_spec().wf(),
        ensures
            r.config_spec().wf(),
            r.config_spec().enabled == self.config_spec().enabled,
            r.config_spec().override_for(font_name@) == Some(enabled),
            forall|k: Seq<char>|
                k != font_name@ ==> r.config_spec().override_for(k)
                    == self.config_spec().override_for(k),
    {
        let mut this = self;
        this.config.set_font_override(font_name, enabled);
        this
    }

    /// Hand the configuration out.
    pub fn build(self) -> (r: LigatureConfig)
        ensures
            r == self.config_spec(),
    {
        self.config
    }
}

impl Default for LigatureConfigBuilder {
    /// Start from the default configuration.
    fn default() -> (r: Self)
        ensures
            r.config_spec().wf(),
            r.config_spec().enabled,
            r.config_spec().font_overrides@.len() == 0,
    {
        Self::new()
    }
}

} // verus!
