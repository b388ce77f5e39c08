//! Notifier logic: render the message template for a vulnerable image
//! and build the sender's argument list.

use vstd::prelude::*;
use vstd::seq_lib::*;
use crate::image::{Image, ImageModel};
use crate::inventory::{
    agg_model, host_models, insert_all_model, insert_model, lemma_insert_all_single,
    listing_models, model_has_id, record_model, ContainerRecord,
};
use crate::scan::{vulnerable_model, ScanOutcome};
use crate::text::{lemma_replace_absent, occurs, replace_all, spec_replace};

verus! {

/// The rendered message for an image: every `{name}` placeholder is
/// substituted with the display name, then every `{id}` placeholder
/// with the normalized digest, by literal text replacement.
pub open spec fn render_model(template: Seq<char>, m: ImageModel) -> Seq<char> {
    spec_replace(spec_replace(template, "{name}"@, m.name), "{id}"@, m.id)
}

/// Render the notification template for one image.
pub fn render_template(template: &str, img: &Image) -> (msg: String)
    ensures
        msg@ == render_model(template@, img@),
{
    proof {
        reveal_strlit("{name}");
        reveal_strlit("{id}");
    }
    let with_name = replace_all(template, "{name}", img.name.as_str());
    replace_all(with_name.as_str(), "{id}", img.id.as_str())
}

/// A template with neither placeholder renders unchanged.
pub proof fn lemma_render_no_placeholders(template: Seq<char>, m: ImageModel)
    requires
        !occurs(template, "{name}"@),
        !occurs(template, "{id}"@),
    ensures
        render_model(template, m) == template,
{
    reveal_strlit("{name}");
    reveal_strlit("{id}");
    lemma_replace_absent(template, "{name}"@, m.name);
    lemma_replace_absent(template, "{id}"@, m.id);
}

/// Build the sender's argument list: deliver one rendered message to
/// the configured destination URL.
pub fn sender_args(url: &str, message: &str) -> (args: Vec<String>)
    ensures
        args@.len() == 5,
        args@[0]@ == "send"@,
        args@[1]@ == "--url"@,
        args@[2]@ == url@,
        args@[3]@ == "--message"@,
        args@[4]@ == message@,
{
    let mut args: Vec<String> = Vec::new();
    args.push("send".to_owned());
    args.push("--url".to_owned());
    args.push(url.to_owned());
    args.push("--message".to_owned());
    args.push(message.to_owned());
    args
}

/// The views of a sequence of strings.
pub open spec fn string_views(s: Seq<String>) -> Seq<Seq<char>> {
    s.map_values(|x: String| x@)
}

/// The rendered messages for a run's vulnerable images, in order.
pub open spec fn messages_model(template: Seq<char>, imgs: Seq<ImageModel>) -> Seq<Seq<char>> {
    imgs.map_values(|m: ImageModel| render_model(template, m))
}

/// Render one notification per vulnerable image; each message is
/// independent of the others.
pub fn notifications_for(template: &str, vulnerable: &Vec<Image>) -> (msgs: Vec<String>)
    ensures
        string_views(msgs@) == messages_model(
            template@,
            crate::inventory::image_models(vulnerable@),
        ),
{
    let n = vulnerable.len();
    let mut msgs: Vec<String> = Vec::new();
    let mut i: usize = 0;
    proof {
        assert_seqs_equal!(string_views(msgs@) ==
            messages_model(template@,
                crate::inventory::image_models(vulnerable@.subrange(0, 0))));
    }
    while i < n
        invariant
            n == vulnerable@.len(),
            0 <= i <= n,
            string_views(msgs@) == messages_model(
                template@,
                crate::inventory::image_models(vulnerable@.subrange(0, i as int)),
            ),
        decreases n - i,
    {
        let msg = render_template(template, &vulnerable[i]);
        let ghost pre = msgs@;
        let ghost msgv = msg@;
        msgs.push(msg);
        proof {
            let ghost models_pre = crate::inventory::image_models(
                vulnerable@.subrange(0, i as int),
            );
            let ghost models_cur = crate::inventory::image_models(
                vulnerable@.subrange(0, i + 1),
            );
            assert(string_views(pre).len() == pre.len());
            assert(messages_model(template@, models_pre).len() == models_pre.len());
            assert(models_pre.len() == i);
            assert(msgs@ == pre.push(msg));
            assert(string_views(msgs@).len() == i + 1);
            assert(messages_model(template@, models_cur).len() == i + 1);
            assert forall|t: int| 0 <= t < i + 1 implies string_views(msgs@)[t]
                == messages_model(template@, models_cur)[t] by {
                assert(string_views(msgs@)[t] == msgs@[t]@);
                assert(models_cur[t] == vulnerable@.subrange(0, i + 1)[t]@);
                assert(vulnerable@.subrange(0, i + 1)[t] == vulnerable@[t]);
                assert(messages_model(template@, models_cur)[t] == render_model(
                    template@,
                    models_cur[t],
                ));
                if t < i {
                    assert(msgs@[t] == pre[t]);
                    assert(string_views(pre)[t] == pre[t]@);
                    assert(messages_model(template@, models_pre)[t] == render_model(
                        template@,
                        models_pre[t],
                    ));
                    assert(models_pre[t] == vulnerable@.subrange(0, i as int)[t]@);
                    assert(vulnerable@.subrange(0, i as int)[t] == vulnerable@[t]);
                } else {
                    assert(msgs@[t]@ == msgv);
                }
            }
            assert(string_views(msgs@) =~= messages_model(template@, models_cur));
        }
        i += 1;
    }
    proof {
        assert_seqs_equal!(vulnerable@.subrange(0, n as int) == vulnerable@);
    }
    msgs
}

/// A single image whose scan is vulnerable yields exactly its one
/// rendered message.
proof fn lemma_single_vulnerable(m: ImageModel, template: Seq<char>)
    ensures
        vulnerable_model(seq![m], seq![ScanOutcome::Vulnerable]) == seq![m],
        messages_model(template, seq![m]) == seq![render_model(template, m)],
{
    let outs = seq![ScanOutcome::Vulnerable];
    assert(seq![m].drop_last().len() == 0);
    assert(outs.drop_last().len() == 0);
    assert(vulnerable_model(seq![m].drop_last(), outs.drop_last()) =~= Seq::<
        ImageModel,
    >::empty());
    assert(outs.last() == ScanOutcome::Vulnerable);
    assert(seq![m].last() == m);
    assert(vulnerable_model(seq![m], outs) =~= seq![m]);
    assert_seqs_equal!(messages_model(template, seq![m]) ==
        seq![render_model(template, m)]);
}

/// One run end to end: two hosts each report one container and the two
/// containers carry one digest. The aggregated inventory holds exactly
/// the first-seen image; when its scan is vulnerable, exactly one
/// message is rendered, from that image's display name and the shared
/// digest.
pub proof fn lemma_end_to_end_shared_digest(
    hosts: Seq<Option<Vec<ContainerRecord>>>,
    a: ContainerRecord,
    b: ContainerRecord,
    template: Seq<char>,
)
    requires
        hosts.len() == 2,
        hosts[0] matches Option::Some(la) && la@ == seq![a],
        hosts[1] matches Option::Some(lb) && lb@ == seq![b],
        record_model(a).id == record_model(b).id,
    ensures
        agg_model(hosts) == seq![record_model(a)],
        vulnerable_model(agg_model(hosts), seq![ScanOutcome::Vulnerable]) == seq![
            record_model(a),
        ],
        messages_model(
            template,
            vulnerable_model(agg_model(hosts), seq![ScanOutcome::Vulnerable]),
        ) == seq![render_model(template, record_model(a))],
{
    let la = hosts[0]->Some_0;
    let lb = hosts[1]->Some_0;
    let ma = record_model(a);
    let mb = record_model(b);
    assert_seqs_equal!(listing_models(la@) == seq![ma]);
    assert_seqs_equal!(listing_models(lb@) == seq![mb]);
    let front = hosts.drop_last();
    assert(front.last() == hosts[0]);
    assert(front.drop_last().len() == 0);
    assert(agg_model(front.drop_last()).len() == 0);
    lemma_insert_all_single(agg_model(front.drop_last()), ma);
    assert(!model_has_id(agg_model(front.drop_last()), ma.id));
    assert(agg_model(front) =~= seq![ma]) by {
        assert(agg_model(front) == insert_model(agg_model(front.drop_last()), ma));
        assert(agg_model(front.drop_last()).push(ma) =~= seq![ma]);
    }
    lemma_insert_all_single(agg_model(front), mb);
    assert(agg_model(hosts) == insert_model(seq![ma], mb));
    assert(model_has_id(seq![ma], mb.id)) by {
        assert(seq![ma][0].id == mb.id);
    }
    assert(agg_model(hosts) == seq![ma]);
    lemma_single_vulnerable(ma, template);
}

/// Isolation end to end: the first host is unreachable and contributes
/// nothing; the second host's one image is still aggregated, and when
/// its scan is vulnerable its one message is rendered, untouched by the
/// failure.
pub proof fn lemma_partial_failure_end_to_end(
    hosts: Seq<Option<Vec<ContainerRecord>>>,
    x: ContainerRecord,
    template: Seq<char>,
)
    requires
        hosts.len() == 2,
        hosts[0] is None,
        hosts[1] matches Option::Some(l) && l@ == seq![x],
    ensures
        agg_model(hosts) == seq![record_model(x)],
        vulnerable_model(agg_model(hosts), seq![ScanOutcome::Vulnerable]) == seq![
            record_model(x),
        ],
        messages_model(
            template,
            vulnerable_model(agg_model(hosts), seq![ScanOutcome::Vulnerable]),
        ) == seq![render_model(template, record_model(x))],
{
    let l = hosts[1]->Some_0;
    let mx = record_model(x);
    assert_seqs_equal!(listing_models(l@) == seq![mx]);
    let front = hosts.drop_last();
    assert(front.last() == hosts[0]);
    assert(front.drop_last().len() == 0);
    assert(agg_model(front.drop_last()).len() == 0);
    assert(host_models(hosts[0]).len() == 0);
    assert(agg_model(front).len() == 0) by {
        assert(agg_model(front) == insert_all_model(
            agg_model(front.drop_last()),
            host_models(hosts[0]),
        ));
    }
    lemma_insert_all_single(agg_model(front), mx);
    assert(!model_has_id(agg_model(front), mx.id));
    assert(agg_model(hosts) =~= seq![mx]) by {
        assert(agg_model(hosts) == insert_model(agg_model(front), mx));
        assert(agg_model(front).push(mx) =~= seq![mx]);
    }
    lemma_single_vulnerable(mx, template);
}

} // verus!
