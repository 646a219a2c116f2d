//! Package descriptors and run configuration.
//!
//! An [`Extension`] describes one watched package: its stable `name` (the
//! ledger key and filesystem token), a free-text `display_name`, the vendor's
//! opaque `id`, an optional update-manifest `url` (its presence selects the
//! manifest resolution strategy over the web-store strategy), and whether a
//! diff should be generated for it.

use vstd::prelude::*;
use vstd::string::StringExecFns;

verus! {

/// One watched package.
pub struct Extension {
    pub name: String,
    pub display_name: String,
    pub id: String,
    pub url: Option<String>,
    pub generate_diff: bool,
}

impl Extension {
    /// A copy with the same value.
    pub fn clone_extension(&self) -> (e: Extension)
        ensures
            e@ == self@,
    {
        Extension {
            name: self.name.clone(),
            display_name: self.display_name.clone(),
            id: self.id.clone(),
            url: match &self.url {
                Some(u) => Some(u.clone()),
                None => None,
            },
            generate_diff: self.generate_diff,
        }
    }
}

/// The mathematical value of an [`Extension`]: its five fields, as sequences
/// of characters and plain values.
pub type ExtensionV = (Seq<char>, Seq<char>, Seq<char>, Option<Seq<char>>, bool);

impl View for Extension {
    type V = ExtensionV;

    open spec fn view(&self) -> ExtensionV {
        (self.name@, self.display_name@, self.id@, self.url.deep_view(), self.generate_diff)
    }
}

impl DeepView for Extension {
    type V = ExtensionV;

    open spec fn deep_view(&self) -> ExtensionV {
        self@
    }
}

/// The whole run's configuration, as the library reads it. Loading it from
/// disk, and the defaulting of absent fields, happen outside the library.
pub struct Config {
    pub use_builtin_extensions: bool,
    pub force_generate_diffs: Option<bool>,
    pub extra_extensions: Option<Vec<Extension>>,
    pub discord: Option<DiscordConfig>,
}

/// Where the aggregated outcome message is delivered.
pub struct DiscordConfig {
    pub token: String,
    pub channel_ids: Vec<u64>,
}

/// The default for [`Config::use_builtin_extensions`] when the configuration
/// document leaves it out.
pub fn default_true() -> (b: bool)
    ensures
        b,
{
    true
}

/// The packages watched out of the box, by value.
pub open spec fn spec_builtin_extensions() -> Seq<ExtensionV> {
    seq![
        (
            "classroom"@,
            "Securly Classroom"@,
            "jfbecfmiegcjddenjhlbhlikcbfmnafd"@,
            Some("https://deviceconsole.securly.com/dist/chrome/n.xml"@),
            true,
        ),
        (
            "chromebooks"@,
            "Securly for Chromebooks [Old, Webstore]"@,
            "iheobagjkfklnlikgihanlhcddjoihkg"@,
            None,
            true,
        ),
        (
            "chromebooks-new"@,
            "Securly for Chromebooks [New]"@,
            "joflmkccibkooplaeoinecjbmdebglab"@,
            Some("https://extensions.securly.com/extensions.xml"@),
            true,
        ),
        (
            "goguardian-stable"@,
            "GoGuardian [Stable]"@,
            "haldlgldplgnggkjaafhelgiaglafanh"@,
            Some("https://ext.goguardian.com/stable.xml"@),
            true,
        ),
        (
            "goguardian-alpha"@,
            "GoGuardian [Alpha]"@,
            "haldlgldplgnggkjaafhelgiaglafanh"@,
            Some("https://ext.goguardian.com/alpha.xml"@),
            true,
        ),
        ("blocksi"@, "Blocksi"@, "ghlpmldmjjhmdgmneoaibbegkjjbonbk"@, None, true),
        ("iboss"@, "iBoss"@, "kmffehbidlalibfeklaefnckpidbodff"@, None, true),
        ("fortiguard"@, "Fortiguard"@, "igbgpehnbmhgdgjbhkkpedommgmfbeao"@, None, true),
        ("cisco"@, "Cisco"@, "jcdhmojfecjfmbdpchihbeilohgnbdci"@, None, true),
        ("netref"@, "NetRef"@, "khfdeghnhlpdfeenmdofgcbilkngngcp"@, None, true),
        ("contentkeeper"@, "ContentKeeper"@, "jdogphakondfdmcanpapfahkdomaicfa"@, None, true),
        ("hapara"@, "Hapara"@, "kbohafcopfpigkjdimdcdgenlhkmhbnc"@, None, true),
        ("smoothwall"@, "Smoothwall"@, "jbldkhfglmgeihlcaeliadhipokhocnm"@, None, true),
        ("linewize"@, "Linewize/Connect for Chrome"@, "ddfbkhpmcdbciejenfcolaaiebnjcbfc"@, None, true),
        ("lanschool"@, "LANSchool"@, "baleiojnjpgeojohhhfbichcodgljmnj"@, None, true),
    ]
}

fn builtin_extension(
    name: &str,
    display_name: &str,
    id: &str,
    url: Option<&str>,
) -> (e: Extension)
    ensures
        e@ == (
            name@,
            display_name@,
            id@,
            match url {
                Some(u) => Some(u@),
                None => None,
            },
            true,
        ),
{
    Extension {
        name: String::from_str(name),
        display_name: String::from_str(display_name),
        id: String::from_str(id),
        url: match url {
            Some(u) => Some(String::from_str(u)),
            None => None,
        },
        generate_diff: true,
    }
}

/// The packages watched out of the box.
pub fn builtin_extensions() -> (r: Vec<Extension>)
    ensures
        r.deep_view() == spec_builtin_extensions(),
{
    let mut r: Vec<Extension> = Vec::new();
    r.push(
        builtin_extension(
            "classroom",
            "Securly Classroom",
            "jfbecfmiegcjddenjhlbhlikcbfmnafd",
            Some("https://deviceconsole.securly.com/dist/chrome/n.xml"),
        ),
    );
    r.push(
        builtin_extension(
            "chromebooks",
            "Securly for Chromebooks [Old, Webstore]",
            "iheobagjkfklnlikgihanlhcddjoihkg",
            None,
        ),
    );
    r.push(
        builtin_extension(
            "chromebooks-new",
            "Securly for Chromebooks [New]",
            "joflmkccibkooplaeoinecjbmdebglab",
            Some("https://extensions.securly.com/extensions.xml"),
        ),
    );
    r.push(
        builtin_extension(
            "goguardian-stable",
            "GoGuardian [Stable]",
            "haldlgldplgnggkjaafhelgiaglafanh",
            Some("https://ext.goguardian.com/stable.xml"),
        ),
    );
    r.push(
        builtin_extension(
            "goguardian-alpha",
            "GoGuardian [Alpha]",
            "haldlgldplgnggkjaafhelgiaglafanh",
            Some("https://ext.goguardian.com/alpha.xml"),
        ),
    );
    r.push(builtin_extension("blocksi", "Blocksi", "ghlpmldmjjhmdgmneoaibbegkjjbonbk", None));
    r.push(builtin_extension("iboss", "iBoss", "kmffehbidlalibfeklaefnckpidbodff", None));
    r.push(
        builtin_extension("fortiguard", "Fortiguard", "igbgpehnbmhgdgjbhkkpedommgmfbeao", None),
    );
    r.push(builtin_extension("cisco", "Cisco", "jcdhmojfecjfmbdpchihbeilohgnbdci", None));
    r.push(builtin_extension("netref", "NetRef", "khfdeghnhlpdfeenmdofgcbilkngngcp", None));
    r.push(
        builtin_extension(
            "contentkeeper",
            "ContentKeeper",
            "jdogphakondfdmcanpapfahkdomaicfa",
            None,
        ),
    );
    r.push(builtin_extension("hapara", "Hapara", "kbohafcopfpigkjdimdcdgenlhkmhbnc", None));
    r.push(builtin_extension("smoothwall", "Smoothwall", "jbldkhfglmgeihlcaeliadhipokhocnm", None));
    r.push(
        builtin_extension(
            "linewize",
            "Linewize/Connect for Chrome",
            "ddfbkhpmcdbciejenfcolaaiebnjcbfc",
            None,
        ),
    );
    r.push(builtin_extension("lanschool", "LANSchool", "baleiojnjpgeojohhhfbichcodgljmnj", None));
    proof {
        assert(r.deep_view() =~= spec_builtin_extensions());
    }
    r
}

/// The run's package list: the built-in packages when the configuration asks
/// for them, followed by the configuration's extra packages in their given
/// order.
pub fn assemble_extensions(config: &Config) -> (r: Vec<Extension>)
    ensures
        r.deep_view() == (if config.use_builtin_extensions {
            spec_builtin_extensions()
        } else {
            Seq::<ExtensionV>::empty()
        }) + (match config.extra_extensions {
            Some(ref extra) => extra.deep_view(),
            None => Seq::<ExtensionV>::empty(),
        }),
{
    let mut r: Vec<Extension> = if config.use_builtin_extensions {
        builtin_extensions()
    } else {
        Vec::new()
    };
    let ghost base = r.deep_view();
    match &config.extra_extensions {
        Some(extra) => {
            let n = extra.len();
            let mut i: usize = 0;
            proof {
                assert(base + extra.deep_view().take(0) =~= base);
            }
            while i < n
                invariant
                    n == extra@.len(),
                    i <= n,
                    r.deep_view() == base + extra.deep_view().take(i as int),
                decreases n - i,
            {
                let x = extra[i].clone_extension();
                let ghost xv = x.deep_view();
                let ghost before = r.deep_view();
                r.push(x);
                proof {
                    assert(xv == extra.deep_view()[i as int]);
                    assert(r.deep_view() =~= before.push(xv));
                    assert(before.push(xv) =~= base + extra.deep_view().take(i + 1));
                }
                i += 1;
            }
            proof {
                assert(extra.deep_view().take(n as int) =~= extra.deep_view());
            }
        },
        None => {
            proof {
                assert(base + Seq::<ExtensionV>::empty() =~= base);
            }
        },
    }
    r
}

} // verus!
