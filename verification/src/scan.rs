//! Scan-runner logic: the scanner subprocess's environment, argument
//! list and report path, the exit-code classification, and the
//! selection of vulnerable images from a run's outcomes.

use vstd::prelude::*;
use vstd::seq_lib::*;
use crate::image::{Image, ImageModel};
use crate::inventory::image_models;
use crate::text::{has_prefix, starts_with_spec};

verus! {

/// Per-image scan result, consumed by the notifier within the same run.
#[derive(Clone, Copy, Debug, PartialEq, Eq, Structural)]
pub enum ScanOutcome {
    Clean,
    Vulnerable,
}

/// Interpret the scanner's exit code: zero means no findings, any
/// non-zero code means findings above the scanner's threshold.
pub fn classify_exit_code(code: i32) -> (outcome: ScanOutcome)
    ensures
        outcome == ScanOutcome::Clean <==> code == 0,
{
    if code == 0 {
        ScanOutcome::Clean
    } else {
        ScanOutcome::Vulnerable
    }
}

/// One environment variable handed to the scanner subprocess.
pub struct EnvEntry {
    pub key: String,
    pub value: String,
}

/// Mathematical model of one environment variable.
pub ghost struct EnvModel {
    pub key: Seq<char>,
    pub value: Seq<char>,
}

impl View for EnvEntry {
    type V = EnvModel;

    open spec fn view(&self) -> EnvModel {
        EnvModel { key: self.key@, value: self.value@ }
    }
}

/// The models of a sequence of environment variables.
pub open spec fn env_models(s: Seq<EnvEntry>) -> Seq<EnvModel> {
    s.map_values(|e: EnvEntry| e@)
}

/// The variables of `vars` whose names carry the scanner's prefix, in
/// their original order.
pub open spec fn env_filter(vars: Seq<EnvEntry>) -> Seq<EnvModel>
    decreases vars.len(),
{
    if vars.len() == 0 {
        Seq::empty()
    } else {
        let front = env_filter(vars.drop_last());
        if starts_with_spec(vars.last().key@, "TRIVY"@) {
            front.push(vars.last()@)
        } else {
            front
        }
    }
}

/// The fixed report-template variable every scan receives.
pub open spec fn template_entry() -> EnvModel {
    EnvModel { key: "TRIVY_TEMPLATE"@, value: "@templates/html.tpl"@ }
}

/// The scanner subprocess's whole environment: built from scratch, the
/// fixed template variable first, then exactly the orchestrator
/// variables with the scanner prefix, which may override it.
pub open spec fn scanner_env_model(vars: Seq<EnvEntry>) -> Seq<EnvModel> {
    seq![template_entry()] + env_filter(vars)
}

/// Build the scanner's environment from the orchestrator's own
/// variables: cleared, one fixed template variable, then only the
/// variables whose names start with the scanner prefix.
pub fn scanner_env(vars: &Vec<EnvEntry>) -> (env: Vec<EnvEntry>)
    ensures
        env_models(env@) == scanner_env_model(vars@),
{
    let mut env: Vec<EnvEntry> = Vec::new();
    env.push(EnvEntry {
        key: "TRIVY_TEMPLATE".to_owned(),
        value: "@templates/html.tpl".to_owned(),
    });
    let n = vars.len();
    let mut i: usize = 0;
    proof {
        assert_seqs_equal!(env_models(env@) ==
            seq![template_entry()] + env_filter(vars@.subrange(0, 0)));
    }
    while i < n
        invariant
            n == vars@.len(),
            0 <= i <= n,
            env_models(env@) == seq![template_entry()] + env_filter(
                vars@.subrange(0, i as int),
            ),
        decreases n - i,
    {
        let ghost pre = env@;
        if has_prefix(vars[i].key.as_str(), "TRIVY") {
            env.push(EnvEntry { key: vars[i].key.clone(), value: vars[i].value.clone() });
            proof {
                assert(env@.last()@ == vars@[i as int]@);
                assert_seqs_equal!(env_models(pre.push(env@.last())) ==
                    env_models(pre).push(vars@[i as int]@));
            }
        }
        proof {
            let prefix = vars@.subrange(0, i as int);
            let cur = vars@.subrange(0, i + 1);
            assert_seqs_equal!(cur.drop_last() == prefix);
            assert(cur.last() == vars@[i as int]);
            if starts_with_spec(vars@[i as int].key@, "TRIVY"@) {
                assert(env_filter(cur) == env_filter(prefix).push(vars@[i as int]@));
                assert_seqs_equal!(env_models(env@) ==
                    seq![template_entry()] + env_filter(cur));
            } else {
                assert(env_filter(cur) == env_filter(prefix));
            }
        }
        i += 1;
    }
    proof {
        assert_seqs_equal!(vars@.subrange(0, n as int) == vars@);
    }
    env
}

/// The report file the scan of an image writes: a fixed directory, the
/// image's normalized digest, a fixed extension.
pub open spec fn report_path_model(m: ImageModel) -> Seq<char> {
    "/output/"@ + m.id + ".html"@
}

/// Build the report output path for one image.
pub fn report_path(img: &Image) -> (p: String)
    ensures
        p@ == report_path_model(img@),
{
    let p = "/output/".to_owned();
    let p = p.concat(img.id.as_str());
    let p = p.concat(".html");
    p
}

/// Build the scanner's whole argument list for one image: scan the
/// image by display name, render a templated report, exit non-zero on
/// findings, write the report under the image's digest.
pub fn scanner_args(img: &Image) -> (args: Vec<String>)
    ensures
        args@.len() == 8,
        args@[0]@ == "image"@,
        args@[1]@ == "--format"@,
        args@[2]@ == "template"@,
        args@[3]@ == "--exit-code"@,
        args@[4]@ == "1"@,
        args@[5]@ == "--output"@,
        args@[6]@ == report_path_model(img@),
        args@[7]@ == img@.name,
{
    let mut args: Vec<String> = Vec::new();
    args.push("image".to_owned());
    args.push("--format".to_owned());
    args.push("template".to_owned());
    args.push("--exit-code".to_owned());
    args.push("1".to_owned());
    args.push("--output".to_owned());
    args.push(report_path(img));
    args.push(img.name.clone());
    args
}

/// The images of a run classified vulnerable, in scan order.
pub open spec fn vulnerable_model(imgs: Seq<ImageModel>, outs: Seq<ScanOutcome>) -> Seq<ImageModel>
    decreases imgs.len(),
{
    if imgs.len() == 0 || outs.len() == 0 {
        Seq::empty()
    } else {
        let front = vulnerable_model(imgs.drop_last(), outs.drop_last());
        if outs.last() == ScanOutcome::Vulnerable {
            front.push(imgs.last())
        } else {
            front
        }
    }
}

/// Select the images whose scan outcome was vulnerable, pairing each
/// image with its outcome in order.
pub fn vulnerable_images(images: &Vec<Image>, outcomes: &Vec<ScanOutcome>) -> (v: Vec<Image>)
    requires
        images@.len() == outcomes@.len(),
    ensures
        image_models(v@) == vulnerable_model(image_models(images@), outcomes@),
{
    let n = images.len();
    let mut v: Vec<Image> = Vec::new();
    let mut i: usize = 0;
    proof {
        assert(image_models(images@.subrange(0, 0)).len() == 0);
        assert_seqs_equal!(image_models(v@) ==
            vulnerable_model(image_models(images@.subrange(0, 0)),
                outcomes@.subrange(0, 0)));
    }
    while i < n
        invariant
            n == images@.len(),
            n == outcomes@.len(),
            0 <= i <= n,
            image_models(v@) == vulnerable_model(
                image_models(images@.subrange(0, i as int)),
                outcomes@.subrange(0, i as int),
            ),
        decreases n - i,
    {
        let ghost pre = v@;
        if matches!(outcomes[i], ScanOutcome::Vulnerable) {
            v.push(images[i].clone());
            proof {
                assert_seqs_equal!(image_models(pre.push(v@.last())) ==
                    image_models(pre).push(images@[i as int]@));
            }
        }
        proof {
            let imgs_pre = image_models(images@.subrange(0, i as int));
            let imgs_cur = image_models(images@.subrange(0, i + 1));
            let outs_pre = outcomes@.subrange(0, i as int);
            let outs_cur = outcomes@.subrange(0, i + 1);
            assert_seqs_equal!(imgs_cur.drop_last() == imgs_pre, t => {
                assert(images@.subrange(0, i + 1)[t] == images@[t]);
                assert(images@.subrange(0, i as int)[t] == images@[t]);
            });
            assert_seqs_equal!(outs_cur.drop_last() == outs_pre);
            assert(imgs_cur.last() == images@.subrange(0, i + 1)[i as int]@);
            assert(outs_cur.last() == outcomes@[i as int]);
        }
        i += 1;
    }
    proof {
        assert_seqs_equal!(images@.subrange(0, n as int) == images@);
        assert_seqs_equal!(outcomes@.subrange(0, n as int) == outcomes@);
    }
    v
}

} // verus!
