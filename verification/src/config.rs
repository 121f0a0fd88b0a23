//! The startup configuration: parsed once before the event loop starts,
//! read-only thereafter.
//!
//! The configuration document is canonical JSON with a fixed field order, as
//! the project's tooling writes it.  A malformed document is fatal to
//! startup, so parsing reports a configuration error rather than panicking.

use vstd::prelude::*;

use crate::codec::{
    bool_text, chars_of, lit_at, parse_bool, parse_qstr, parse_sarr, quoted, sarr_text,
    str_views, tag, lemma_lit_split, qstr_at, write_bool, write_qstr, write_sarr,
};
use crate::VeloxError;

verus! {

/// The `package` section of the build manifest.
#[derive(Debug, Clone, PartialEq, Eq)]
pub struct PackageSettings {
    /// The package's name.
    pub name: String,
    /// The package's version.
    pub version: String,
    /// The package's description.
    pub description: String,
    /// The package's homepage.
    pub homepage: Option<String>,
    /// The package's authors.
    pub authors: Option<Vec<String>>,
    /// The default binary to run.
    pub default_run: Option<String>,
}

/// The root of the build manifest.
#[derive(Debug, Clone, PartialEq, Eq)]
pub struct CargoSettings {
    /// The package settings.
    pub package: PackageSettings,
}

/// The application's startup configuration.
#[derive(Debug, Clone, PartialEq, Eq)]
pub struct VeloxConfig {
    /// Title of the app.
    pub name: String,
    pub description: String,
    pub debug: bool,
    pub permissions: Vec<String>,
    pub dev_server_url: String,
    pub package_manager: String,
    pub build_dir: String,
}

/// The canonical text of a configuration document.
pub open spec fn config_text(c: VeloxConfig) -> Seq<char> {
    "{\"name\":"@ + quoted(c.name@) + ",\"debug\":"@ + bool_text(c.debug)
        + ",\"devServerUrl\":"@ + quoted(c.dev_server_url@) + ",\"description\":"@ + quoted(
        c.description@,
    ) + ",\"permissions\":"@ + sarr_text(str_views(c.permissions@)) + ",\"packageManager\":"@
        + quoted(c.package_manager@) + ",\"buildDir\":"@ + quoted(c.build_dir@) + "}"@
}

/// Two configurations carry the same data.
pub open spec fn config_equiv(a: VeloxConfig, b: VeloxConfig) -> bool {
    &&& a.name@ == b.name@
    &&& a.description@ == b.description@
    &&& a.debug == b.debug
    &&& str_views(a.permissions@) == str_views(b.permissions@)
    &&& a.dev_server_url@ == b.dev_server_url@
    &&& a.package_manager@ == b.package_manager@
    &&& a.build_dir@ == b.build_dir@
}

/// The body text of a configuration, in terms of its parts.
pub open spec fn config_parts(nm: Seq<char>, dbg: bool, dsu: Seq<char>, dsc: Seq<char>, pm: Seq<Seq<char>>, pkg: Seq<char>, bd: Seq<char>) -> Seq<char> {
    "{\"name\":"@ + quoted(nm) + ",\"debug\":"@ + bool_text(dbg) + ",\"devServerUrl\":"@
        + quoted(dsu) + ",\"description\":"@ + quoted(dsc) + ",\"permissions\":"@
        + sarr_text(pm) + ",\"packageManager\":"@ + quoted(pkg) + ",\"buildDir\":"@
        + quoted(bd) + "}"@
}

/// Parses the fixed-order configuration object at `pos`.
#[verifier::rlimit(100)]
#[verifier::spinoff_prover]
fn parse_config_body(input: &Vec<char>, pos: usize) -> (r: Option<(VeloxConfig, usize)>)
    requires
        pos <= input@.len(),
    ensures
        r matches Some(t) ==> pos <= t.1 <= input@.len() && input@.subrange(
            pos as int,
            t.1 as int,
        ) == config_text(t.0),
        forall|nm: Seq<char>, dbg: bool, dsu: Seq<char>, dsc: Seq<char>, pm: Seq<Seq<char>>, pkg: Seq<char>, bd: Seq<char>| lit_at(
            input@,
            pos as int,
            #[trigger] config_parts(nm, dbg, dsu, dsc, pm, pkg, bd),
        ) ==> (r matches Some(t) && t.0.name@ == nm && t.0.debug == dbg
            && t.0.dev_server_url@ == dsu && t.0.description@ == dsc
            && str_views(t.0.permissions@) == pm && t.0.package_manager@ == pkg
            && t.0.build_dir@ == bd && t.1 == pos + config_parts(nm, dbg, dsu, dsc, pm, pkg, bd).len()),
{
    proof {
        assert forall|nm: Seq<char>, dbg: bool, dsu: Seq<char>, dsc: Seq<char>, pm: Seq<Seq<char>>, pkg: Seq<char>, bd: Seq<char>| lit_at(
            input@,
            pos as int,
            #[trigger] config_parts(nm, dbg, dsu, dsc, pm, pkg, bd),
        ) implies lit_at(input@, pos as int, "{\"name\":"@) && qstr_at(input@, pos as int + "{\"name\":"@.len(), nm) && lit_at(input@, pos as int + "{\"name\":"@.len() + quoted(nm).len(), ",\"debug\":"@) && lit_at(input@, pos as int + "{\"name\":"@.len() + quoted(nm).len() + ",\"debug\":"@.len(), bool_text(dbg)) && lit_at(input@, pos as int + "{\"name\":"@.len() + quoted(nm).len() + ",\"debug\":"@.len() + bool_text(dbg).len(), ",\"devServerUrl\":"@) && qstr_at(input@, pos as int + "{\"name\":"@.len() + quoted(nm).len() + ",\"debug\":"@.len() + bool_text(dbg).len() + ",\"devServerUrl\":"@.len(), dsu) && lit_at(input@, pos as int + "{\"name\":"@.len() + quoted(nm).len() + ",\"debug\":"@.len() + bool_text(dbg).len() + ",\"devServerUrl\":"@.len() + quoted(dsu).len(), ",\"description\":"@) && qstr_at(input@, pos as int + "{\"name\":"@.len() + quoted(nm).len() + ",\"debug\":"@.len() + bool_text(dbg).len() + ",\"devServerUrl\":"@.len() + quoted(dsu).len() + ",\"description\":"@.len(), dsc) && lit_at(input@, pos as int + "{\"name\":"@.len() + quoted(nm).len() + ",\"debug\":"@.len() + bool_text(dbg).len() + ",\"devServerUrl\":"@.len() + quoted(dsu).len() + ",\"description\":"@.len() + quoted(dsc).len(), ",\"permissions\":"@) && lit_at(input@, pos as int + "{\"name\":"@.len() + quoted(nm).len() + ",\"debug\":"@.len() + bool_text(dbg).len() + ",\"devServerUrl\":"@.len() + quoted(dsu).len() + ",\"description\":"@.len() + quoted(dsc).len() + ",\"permissions\":"@.len(), sarr_text(pm)) && lit_at(input@, pos as int + "{\"name\":"@.len() + quoted(nm).len() + ",\"debug\":"@.len() + bool_text(dbg).len() + ",\"devServerUrl\":"@.len() + quoted(dsu).len() + ",\"description\":"@.len() + quoted(dsc).len() + ",\"permissions\":"@.len() + sarr_text(pm).len(), ",\"packageManager\":"@) && qstr_at(input@, pos as int + "{\"name\":"@.len() + quoted(nm).len() + ",\"debug\":"@.len() + bool_text(dbg).len() + ",\"devServerUrl\":"@.len() + quoted(dsu).len() + ",\"description\":"@.len() + quoted(dsc).len() + ",\"permissions\":"@.len() + sarr_text(pm).len() + ",\"packageManager\":"@.len(), pkg) && lit_at(input@, pos as int + "{\"name\":"@.len() + quoted(nm).len() + ",\"debug\":"@.len() + bool_text(dbg).len() + ",\"devServerUrl\":"@.len() + quoted(dsu).len() + ",\"description\":"@.len() + quoted(dsc).len() + ",\"permissions\":"@.len() + sarr_text(pm).len() + ",\"packageManager\":"@.len() + quoted(pkg).len(), ",\"buildDir\":"@) && qstr_at(input@, pos as int + "{\"name\":"@.len() + quoted(nm).len() + ",\"debug\":"@.len() + bool_text(dbg).len() + ",\"devServerUrl\":"@.len() + quoted(dsu).len() + ",\"description\":"@.len() + quoted(dsc).len() + ",\"permissions\":"@.len() + sarr_text(pm).len() + ",\"packageManager\":"@.len() + quoted(pkg).len() + ",\"buildDir\":"@.len(), bd) && lit_at(input@, pos as int + "{\"name\":"@.len() + quoted(nm).len() + ",\"debug\":"@.len() + bool_text(dbg).len() + ",\"devServerUrl\":"@.len() + quoted(dsu).len() + ",\"description\":"@.len() + quoted(dsc).len() + ",\"permissions\":"@.len() + sarr_text(pm).len() + ",\"packageManager\":"@.len() + quoted(pkg).len() + ",\"buildDir\":"@.len() + quoted(bd).len(), "}"@) by {
            assert(config_parts(nm, dbg, dsu, dsc, pm, pkg, bd) =~= "{\"name\":"@ + (quoted(nm) + (",\"debug\":"@ + (bool_text(dbg) + (",\"devServerUrl\":"@ + (quoted(dsu) + (",\"description\":"@ + (quoted(dsc) + (",\"permissions\":"@ + (sarr_text(pm) + (",\"packageManager\":"@ + (quoted(pkg) + (",\"buildDir\":"@ + (quoted(bd) + ("}"@)))))))))))))));
            lemma_lit_split(input@, pos as int, "{\"name\":"@, quoted(nm) + (",\"debug\":"@ + (bool_text(dbg) + (",\"devServerUrl\":"@ + (quoted(dsu) + (",\"description\":"@ + (quoted(dsc) + (",\"permissions\":"@ + (sarr_text(pm) + (",\"packageManager\":"@ + (quoted(pkg) + (",\"buildDir\":"@ + (quoted(bd) + ("}"@))))))))))))));
            lemma_lit_split(input@, pos as int + "{\"name\":"@.len(), quoted(nm), ",\"debug\":"@ + (bool_text(dbg) + (",\"devServerUrl\":"@ + (quoted(dsu) + (",\"description\":"@ + (quoted(dsc) + (",\"permissions\":"@ + (sarr_text(pm) + (",\"packageManager\":"@ + (quoted(pkg) + (",\"buildDir\":"@ + (quoted(bd) + ("}"@)))))))))))));
            lemma_lit_split(input@, pos as int + "{\"name\":"@.len() + quoted(nm).len(), ",\"debug\":"@, bool_text(dbg) + (",\"devServerUrl\":"@ + (quoted(dsu) + (",\"description\":"@ + (quoted(dsc) + (",\"permissions\":"@ + (sarr_text(pm) + (",\"packageManager\":"@ + (quoted(pkg) + (",\"buildDir\":"@ + (quoted(bd) + ("}"@))))))))))));
            lemma_lit_split(input@, pos as int + "{\"name\":"@.len() + quoted(nm).len() + ",\"debug\":"@.len(), bool_text(dbg), ",\"devServerUrl\":"@ + (quoted(dsu) + (",\"description\":"@ + (quoted(dsc) + (",\"permissions\":"@ + (sarr_text(pm) + (",\"packageManager\":"@ + (quoted(pkg) + (",\"buildDir\":"@ + (quoted(bd) + ("}"@)))))))))));
            lemma_lit_split(input@, pos as int + "{\"name\":"@.len() + quoted(nm).len() + ",\"debug\":"@.len() + bool_text(dbg).len(), ",\"devServerUrl\":"@, quoted(dsu) + (",\"description\":"@ + (quoted(dsc) + (",\"permissions\":"@ + (sarr_text(pm) + (",\"packageManager\":"@ + (quoted(pkg) + (",\"buildDir\":"@ + (quoted(bd) + ("}"@))))))))));
            lemma_lit_split(input@, pos as int + "{\"name\":"@.len() + quoted(nm).len() + ",\"debug\":"@.len() + bool_text(dbg).len() + ",\"devServerUrl\":"@.len(), quoted(dsu), ",\"description\":"@ + (quoted(dsc) + (",\"permissions\":"@ + (sarr_text(pm) + (",\"packageManager\":"@ + (quoted(pkg) + (",\"buildDir\":"@ + (quoted(bd) + ("}"@)))))))));
            lemma_lit_split(input@, pos as int + "{\"name\":"@.len() + quoted(nm).len() + ",\"debug\":"@.len() + bool_text(dbg).len() + ",\"devServerUrl\":"@.len() + quoted(dsu).len(), ",\"description\":"@, quoted(dsc) + (",\"permissions\":"@ + (sarr_text(pm) + (",\"packageManager\":"@ + (quoted(pkg) + (",\"buildDir\":"@ + (quoted(bd) + ("}"@))))))));
            lemma_lit_split(input@, pos as int + "{\"name\":"@.len() + quoted(nm).len() + ",\"debug\":"@.len() + bool_text(dbg).len() + ",\"devServerUrl\":"@.len() + quoted(dsu).len() + ",\"description\":"@.len(), quoted(dsc), ",\"permissions\":"@ + (sarr_text(pm) + (",\"packageManager\":"@ + (quoted(pkg) + (",\"buildDir\":"@ + (quoted(bd) + ("}"@)))))));
            lemma_lit_split(input@, pos as int + "{\"name\":"@.len() + quoted(nm).len() + ",\"debug\":"@.len() + bool_text(dbg).len() + ",\"devServerUrl\":"@.len() + quoted(dsu).len() + ",\"description\":"@.len() + quoted(dsc).len(), ",\"permissions\":"@, sarr_text(pm) + (",\"packageManager\":"@ + (quoted(pkg) + (",\"buildDir\":"@ + (quoted(bd) + ("}"@))))));
            lemma_lit_split(input@, pos as int + "{\"name\":"@.len() + quoted(nm).len() + ",\"debug\":"@.len() + bool_text(dbg).len() + ",\"devServerUrl\":"@.len() + quoted(dsu).len() + ",\"description\":"@.len() + quoted(dsc).len() + ",\"permissions\":"@.len(), sarr_text(pm), ",\"packageManager\":"@ + (quoted(pkg) + (",\"buildDir\":"@ + (quoted(bd) + ("}"@)))));
            lemma_lit_split(input@, pos as int + "{\"name\":"@.len() + quoted(nm).len() + ",\"debug\":"@.len() + bool_text(dbg).len() + ",\"devServerUrl\":"@.len() + quoted(dsu).len() + ",\"description\":"@.len() + quoted(dsc).len() + ",\"permissions\":"@.len() + sarr_text(pm).len(), ",\"packageManager\":"@, quoted(pkg) + (",\"buildDir\":"@ + (quoted(bd) + ("}"@))));
            lemma_lit_split(input@, pos as int + "{\"name\":"@.len() + quoted(nm).len() + ",\"debug\":"@.len() + bool_text(dbg).len() + ",\"devServerUrl\":"@.len() + quoted(dsu).len() + ",\"description\":"@.len() + quoted(dsc).len() + ",\"permissions\":"@.len() + sarr_text(pm).len() + ",\"packageManager\":"@.len(), quoted(pkg), ",\"buildDir\":"@ + (quoted(bd) + ("}"@)));
            lemma_lit_split(input@, pos as int + "{\"name\":"@.len() + quoted(nm).len() + ",\"debug\":"@.len() + bool_text(dbg).len() + ",\"devServerUrl\":"@.len() + quoted(dsu).len() + ",\"description\":"@.len() + quoted(dsc).len() + ",\"permissions\":"@.len() + sarr_text(pm).len() + ",\"packageManager\":"@.len() + quoted(pkg).len(), ",\"buildDir\":"@, quoted(bd) + ("}"@));
            lemma_lit_split(input@, pos as int + "{\"name\":"@.len() + quoted(nm).len() + ",\"debug\":"@.len() + bool_text(dbg).len() + ",\"devServerUrl\":"@.len() + quoted(dsu).len() + ",\"description\":"@.len() + quoted(dsc).len() + ",\"permissions\":"@.len() + sarr_text(pm).len() + ",\"packageManager\":"@.len() + quoted(pkg).len() + ",\"buildDir\":"@.len(), quoted(bd), "}"@);
        }
    }
    let p1 = match tag(input, pos, "{\"name\":") {
        Some(p) => p,
        None => { return None; },
    };
    let (name, p2) = match parse_qstr(input, p1) {
        Some(t) => t,
        None => { return None; },
    };
    let p3 = match tag(input, p2, ",\"debug\":") {
        Some(p) => p,
        None => { return None; },
    };
    let (debug, p4) = match parse_bool(input, p3) {
        Some(t) => t,
        None => { return None; },
    };
    let p5 = match tag(input, p4, ",\"devServerUrl\":") {
        Some(p) => p,
        None => { return None; },
    };
    let (dev_server_url, p6) = match parse_qstr(input, p5) {
        Some(t) => t,
        None => { return None; },
    };
    let p7 = match tag(input, p6, ",\"description\":") {
        Some(p) => p,
        None => { return None; },
    };
    let (description, p8) = match parse_qstr(input, p7) {
        Some(t) => t,
        None => { return None; },
    };
    let p9 = match tag(input, p8, ",\"permissions\":") {
        Some(p) => p,
        None => { return None; },
    };
    let (permissions, p10) = match parse_sarr(input, p9) {
        Some(t) => t,
        None => { return None; },
    };
    let p11 = match tag(input, p10, ",\"packageManager\":") {
        Some(p) => p,
        None => { return None; },
    };
    let (package_manager, p12) = match parse_qstr(input, p11) {
        Some(t) => t,
        None => { return None; },
    };
    let p13 = match tag(input, p12, ",\"buildDir\":") {
        Some(p) => p,
        None => { return None; },
    };
    let (build_dir, p14) = match parse_qstr(input, p13) {
        Some(t) => t,
        None => { return None; },
    };
    let p15 = match tag(input, p14, "}") {
        Some(p) => p,
        None => { return None; },
    };
    let cfg = VeloxConfig {
        name,
        description,
        debug,
        permissions,
        dev_server_url,
        package_manager,
        build_dir,
    };
    proof {
        lemma_lit_split(input@, pos as int, "{\"name\":"@, quoted(name@));
        lemma_lit_split(input@, pos as int, ("{\"name\":"@) + quoted(name@), ",\"debug\":"@);
        lemma_lit_split(input@, pos as int, (("{\"name\":"@) + quoted(name@)) + ",\"debug\":"@, bool_text(debug));
        lemma_lit_split(input@, pos as int, ((("{\"name\":"@) + quoted(name@)) + ",\"debug\":"@) + bool_text(debug), ",\"devServerUrl\":"@);
        lemma_lit_split(input@, pos as int, (((("{\"name\":"@) + quoted(name@)) + ",\"debug\":"@) + bool_text(debug)) + ",\"devServerUrl\":"@, quoted(dev_server_url@));
        lemma_lit_split(input@, pos as int, ((((("{\"name\":"@) + quoted(name@)) + ",\"debug\":"@) + bool_text(debug)) + ",\"devServerUrl\":"@) + quoted(dev_server_url@), ",\"description\":"@);
        lemma_lit_split(input@, pos as int, (((((("{\"name\":"@) + quoted(name@)) + ",\"debug\":"@) + bool_text(debug)) + ",\"devServerUrl\":"@) + quoted(dev_server_url@)) + ",\"description\":"@, quoted(description@));
        lemma_lit_split(input@, pos as int, ((((((("{\"name\":"@) + quoted(name@)) + ",\"debug\":"@) + bool_text(debug)) + ",\"devServerUrl\":"@) + quoted(dev_server_url@)) + ",\"description\":"@) + quoted(description@), ",\"permissions\":"@);
        lemma_lit_split(input@, pos as int, (((((((("{\"name\":"@) + quoted(name@)) + ",\"debug\":"@) + bool_text(debug)) + ",\"devServerUrl\":"@) + quoted(dev_server_url@)) + ",\"description\":"@) + quoted(description@)) + ",\"permissions\":"@, sarr_text(str_views(permissions@)));
        lemma_lit_split(input@, pos as int, ((((((((("{\"name\":"@) + quoted(name@)) + ",\"debug\":"@) + bool_text(debug)) + ",\"devServerUrl\":"@) + quoted(dev_server_url@)) + ",\"description\":"@) + quoted(description@)) + ",\"permissions\":"@) + sarr_text(str_views(permissions@)), ",\"packageManager\":"@);
        lemma_lit_split(input@, pos as int, (((((((((("{\"name\":"@) + quoted(name@)) + ",\"debug\":"@) + bool_text(debug)) + ",\"devServerUrl\":"@) + quoted(dev_server_url@)) + ",\"description\":"@) + quoted(description@)) + ",\"permissions\":"@) + sarr_text(str_views(permissions@))) + ",\"packageManager\":"@, quoted(package_manager@));
        lemma_lit_split(input@, pos as int, ((((((((((("{\"name\":"@) + quoted(name@)) + ",\"debug\":"@) + bool_text(debug)) + ",\"devServerUrl\":"@) + quoted(dev_server_url@)) + ",\"description\":"@) + quoted(description@)) + ",\"permissions\":"@) + sarr_text(str_views(permissions@))) + ",\"packageManager\":"@) + quoted(package_manager@), ",\"buildDir\":"@);
        lemma_lit_split(input@, pos as int, (((((((((((("{\"name\":"@) + quoted(name@)) + ",\"debug\":"@) + bool_text(debug)) + ",\"devServerUrl\":"@) + quoted(dev_server_url@)) + ",\"description\":"@) + quoted(description@)) + ",\"permissions\":"@) + sarr_text(str_views(permissions@))) + ",\"packageManager\":"@) + quoted(package_manager@)) + ",\"buildDir\":"@, quoted(build_dir@));
        lemma_lit_split(input@, pos as int, ((((((((((((("{\"name\":"@) + quoted(name@)) + ",\"debug\":"@) + bool_text(debug)) + ",\"devServerUrl\":"@) + quoted(dev_server_url@)) + ",\"description\":"@) + quoted(description@)) + ",\"permissions\":"@) + sarr_text(str_views(permissions@))) + ",\"packageManager\":"@) + quoted(package_manager@)) + ",\"buildDir\":"@) + quoted(build_dir@), "}"@);
        assert((((((((((((((("{\"name\":"@) + quoted(name@)) + ",\"debug\":"@) + bool_text(debug)) + ",\"devServerUrl\":"@) + quoted(dev_server_url@)) + ",\"description\":"@) + quoted(description@)) + ",\"permissions\":"@) + sarr_text(str_views(permissions@))) + ",\"packageManager\":"@) + quoted(package_manager@)) + ",\"buildDir\":"@) + quoted(build_dir@)) + "}"@ =~= config_text(cfg));
        assert(input@.subrange(pos as int, p15 as int) == config_text(cfg));
    }
    Some((cfg, p15))
}

/// Produces the canonical text of a configuration.
///
/// This is the form `parse_config` accepts; a document whose members stand
/// in another order is first read loosely by the runner and re-emitted
/// through this writer.
pub fn encode_config(c: &VeloxConfig) -> (r: String)
    ensures
        r@ == config_text(*c),
{
    let mut out = String::new();
    out.append("{\"name\":");
    write_qstr(&mut out, c.name.as_str());
    out.append(",\"debug\":");
    write_bool(&mut out, c.debug);
    out.append(",\"devServerUrl\":");
    write_qstr(&mut out, c.dev_server_url.as_str());
    out.append(",\"description\":");
    write_qstr(&mut out, c.description.as_str());
    out.append(",\"permissions\":");
    write_sarr(&mut out, &c.permissions);
    out.append(",\"packageManager\":");
    write_qstr(&mut out, c.package_manager.as_str());
    out.append(",\"buildDir\":");
    write_qstr(&mut out, c.build_dir.as_str());
    out.append("}");
    assert(out@ =~= config_text(*c));
    out
}

/// Parses the startup configuration document.
///
/// Exactly the canonical documents parse: whenever `config` is the canonical
/// text of a configuration — the form `encode_config` writes — parsing
/// returns that configuration with every field unchanged.  Anything else is
/// a fatal configuration error.  A hand-written document with its members
/// in another order is accepted by the runner, which reads it loosely and
/// normalizes it through `encode_config` before calling here.
#[verifier::rlimit(100)]
#[verifier::spinoff_prover]
pub fn parse_config(config: &str) -> (r: Result<VeloxConfig, VeloxError>)
    ensures
        r matches Ok(c) ==> config@ == config_text(c),
        forall|c: VeloxConfig| config@ == #[trigger] config_text(c) ==> (r matches Ok(c2)
            && config_equiv(c2, c)),
        r matches Err(e) ==> e is ConfigError,
{
    let input = chars_of(config);
    let n = input.len();
    proof {
        assert forall|c: VeloxConfig| config@ == #[trigger] config_text(c) implies lit_at(
            input@,
            0,
            config_parts(
                c.name@,
                c.debug,
                c.dev_server_url@,
                c.description@,
                str_views(c.permissions@),
                c.package_manager@,
                c.build_dir@,
            ),
        ) && n == config_text(c).len() by {
            assert(input@.subrange(0, config_text(c).len() as int) =~= config_text(c));
        }
    }
    match parse_config_body(&input, 0) {
        Some((cfg, p)) => {
            if p == n {
                proof {
                    assert(config@ =~= input@.subrange(0, n as int));
                }
                Ok(cfg)
            } else {
                Err(config_err())
            }
        },
        None => Err(config_err()),
    }
}

/// A fresh configuration error.
fn config_err() -> (r: VeloxError)
    ensures
        r is ConfigError,
{
    VeloxError::ConfigError {
        detail: "the configuration document is not canonical".to_owned(),
    }
}

} // verus!
