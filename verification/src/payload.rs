//! What a signature covers: the signing payload of an event decides every
//! field of the event but the signature.

use vstd::prelude::*;
use crate::json::{is_terminator, json_same, json_string, json_valid, json_value, lemma_json_string_prefix, lemma_value_prefix};
use crate::protocol::{
    attachment_items, attachment_json, json_opt_string, json_string_items, scope_name,
    signing_payload, signing_text, AttachmentReference, EventScope, ProtocolEvent,
};
use vstd::seq_lib::lemma_concat_associative;
use vstd::utf8::encode_utf8_decode_utf8;
use crate::text::{decimal, is_digit, lemma_decimal_prefix, lemma_split_eq};

verus! {

/// The signing text of an event, nested from the right so that it can be
/// read field by field from the front.
pub open spec fn nested_signing_text(e: ProtocolEvent) -> Seq<char> {
    "{\"protocol\":"@ + (
        json_string(e.protocol@) + (
        ",\"id\":"@ + (
        json_string(e.id@) + (
        ",\"schema\":"@ + (
        json_string(e.schema@) + (
        ",\"version\":"@ + (
        decimal(e.version as nat) + (
        ",\"author_id\":"@ + (
        json_string(e.author_id@) + (
        ",\"device_id\":"@ + (
        json_string(e.device_id@) + (
        ",\"room_id\":"@ + (
        json_opt_string(e.room_id) + (
        ",\"created_at\":"@ + (
        json_string(e.created_at@) + (
        ",\"client_sequence\":"@ + (
        decimal(e.client_sequence as nat) + (
        ",\"parent_ids\":["@ + (
        json_string_items(e.parent_ids@) + (
        "],\"scope\":"@ + (
        json_string(scope_name(e.scope)) + (
        ",\"expires_at\":"@ + (
        json_opt_string(e.expires_at) + (
        ",\"content\":"@ + (
        json_value(e.content) + (
        ",\"attachments\":["@ + (
        attachment_items(e.attachments@) + (
        "]}"@
    ))))))))))))))))))))))))))))
}

proof fn lemma_nested_signing_text(e: ProtocolEvent)
    ensures
        signing_text(e) == nested_signing_text(e),
{
    let p0 = "{\"protocol\":"@;
    let p1 = json_string(e.protocol@);
    let p2 = ",\"id\":"@;
    let p3 = json_string(e.id@);
    let p4 = ",\"schema\":"@;
    let p5 = json_string(e.schema@);
    let p6 = ",\"version\":"@;
    let p7 = decimal(e.version as nat);
    let p8 = ",\"author_id\":"@;
    let p9 = json_string(e.author_id@);
    let p10 = ",\"device_id\":"@;
    let p11 = json_string(e.device_id@);
    let p12 = ",\"room_id\":"@;
    let p13 = json_opt_string(e.room_id);
    let p14 = ",\"created_at\":"@;
    let p15 = json_string(e.created_at@);
    let p16 = ",\"client_sequence\":"@;
    let p17 = decimal(e.client_sequence as nat);
    let p18 = ",\"parent_ids\":["@;
    let p19 = json_string_items(e.parent_ids@);
    let p20 = "],\"scope\":"@;
    let p21 = json_string(scope_name(e.scope));
    let p22 = ",\"expires_at\":"@;
    let p23 = json_opt_string(e.expires_at);
    let p24 = ",\"content\":"@;
    let p25 = json_value(e.content);
    let p26 = ",\"attachments\":["@;
    let p27 = attachment_items(e.attachments@);
    let p28 = "]}"@;
    let a0 = p0;
    let a1 = a0 + p1;
    let a2 = a1 + p2;
    let a3 = a2 + p3;
    let a4 = a3 + p4;
    let a5 = a4 + p5;
    let a6 = a5 + p6;
    let a7 = a6 + p7;
    let a8 = a7 + p8;
    let a9 = a8 + p9;
    let a10 = a9 + p10;
    let a11 = a10 + p11;
    let a12 = a11 + p12;
    let a13 = a12 + p13;
    let a14 = a13 + p14;
    let a15 = a14 + p15;
    let a16 = a15 + p16;
    let a17 = a16 + p17;
    let a18 = a17 + p18;
    let a19 = a18 + p19;
    let a20 = a19 + p20;
    let a21 = a20 + p21;
    let a22 = a21 + p22;
    let a23 = a22 + p23;
    let a24 = a23 + p24;
    let a25 = a24 + p25;
    let a26 = a25 + p26;
    let a27 = a26 + p27;
    let a28 = a27 + p28;
    let r28 = p28;
    let r27 = p27 + r28;
    let r26 = p26 + r27;
    let r25 = p25 + r26;
    let r24 = p24 + r25;
    let r23 = p23 + r24;
    let r22 = p22 + r23;
    let r21 = p21 + r22;
    let r20 = p20 + r21;
    let r19 = p19 + r20;
    let r18 = p18 + r19;
    let r17 = p17 + r18;
    let r16 = p16 + r17;
    let r15 = p15 + r16;
    let r14 = p14 + r15;
    let r13 = p13 + r14;
    let r12 = p12 + r13;
    let r11 = p11 + r12;
    let r10 = p10 + r11;
    let r9 = p9 + r10;
    let r8 = p8 + r9;
    let r7 = p7 + r8;
    let r6 = p6 + r7;
    let r5 = p5 + r6;
    let r4 = p4 + r5;
    let r3 = p3 + r4;
    let r2 = p2 + r3;
    let r1 = p1 + r2;
    let r0 = p0 + r1;
    assert(signing_text(e) == a28);
    assert(nested_signing_text(e) == r0);
    lemma_concat_associative(a0, p1, r2);
    lemma_concat_associative(a1, p2, r3);
    lemma_concat_associative(a2, p3, r4);
    lemma_concat_associative(a3, p4, r5);
    lemma_concat_associative(a4, p5, r6);
    lemma_concat_associative(a5, p6, r7);
    lemma_concat_associative(a6, p7, r8);
    lemma_concat_associative(a7, p8, r9);
    lemma_concat_associative(a8, p9, r10);
    lemma_concat_associative(a9, p10, r11);
    lemma_concat_associative(a10, p11, r12);
    lemma_concat_associative(a11, p12, r13);
    lemma_concat_associative(a12, p13, r14);
    lemma_concat_associative(a13, p14, r15);
    lemma_concat_associative(a14, p15, r16);
    lemma_concat_associative(a15, p16, r17);
    lemma_concat_associative(a16, p17, r18);
    lemma_concat_associative(a17, p18, r19);
    lemma_concat_associative(a18, p19, r20);
    lemma_concat_associative(a19, p20, r21);
    lemma_concat_associative(a20, p21, r22);
    lemma_concat_associative(a21, p22, r23);
    lemma_concat_associative(a22, p23, r24);
    lemma_concat_associative(a23, p24, r25);
    lemma_concat_associative(a24, p25, r26);
    lemma_concat_associative(a25, p26, r27);
    lemma_concat_associative(a26, p27, r28);
    assert(r0 == a0 + r1);
}


/// The text of an optional string.
pub open spec fn opt_text(o: Option<String>) -> Option<Seq<char>> {
    match o {
        Some(s) => Some(s@),
        None => None,
    }
}

/// The texts of a list of strings.
pub open spec fn texts(s: Seq<String>) -> Seq<Seq<char>> {
    s.map_values(|x: String| x@)
}

/// What an attachment reference says, by the text of its strings.
pub open spec fn attachment_fields(a: AttachmentReference) -> (Seq<char>, Seq<char>, u64, Seq<char>, Option<Seq<char>>) {
    (a.id@, a.media_type@, a.byte_length, a.content_hash@, opt_text(a.storage_url))
}

/// What a list of attachment references says.
pub open spec fn attachment_views(s: Seq<AttachmentReference>) -> Seq<(Seq<char>, Seq<char>, u64, Seq<char>, Option<Seq<char>>)> {
    s.map_values(|a: AttachmentReference| attachment_fields(a))
}

proof fn lemma_peel(l: Seq<char>, x1: Seq<char>, x2: Seq<char>)
    requires
        l + x1 == l + x2,
    ensures
        x1 == x2,
{
    lemma_split_eq(l, x1, l, x2);
}

proof fn lemma_opt_prefix(o1: Option<String>, o2: Option<String>, r1: Seq<char>, r2: Seq<char>)
    requires
        json_opt_string(o1) + r1 == json_opt_string(o2) + r2,
    ensures
        opt_text(o1) == opt_text(o2),
        r1 == r2,
{
    let t = json_opt_string(o1) + r1;
    assert(t[0] == json_opt_string(o1)[0]);
    assert(t[0] == json_opt_string(o2)[0]);
    match o1 {
        Some(s1) => match o2 {
            Some(s2) => lemma_json_string_prefix(s1@, s2@, r1, r2),
            None => {},
        },
        None => match o2 {
            Some(s2) => {},
            None => lemma_split_eq(json_opt_string(o1), r1, json_opt_string(o2), r2),
        },
    }
}

proof fn lemma_string_items_first(s: Seq<String>)
    requires
        s.len() > 0,
    ensures
        json_string_items(s) == json_string(s[0]@) + (if s.len() == 1 {
            Seq::<char>::empty()
        } else {
            ","@ + json_string_items(s.drop_first())
        }),
    decreases s.len(),
{
    if s.len() == 1 {
        assert(s.drop_last() =~= Seq::<String>::empty());
        assert(json_string_items(s.drop_last()) =~= Seq::<char>::empty());
        assert(json_string_items(s) =~= json_string(s[0]@));
    } else {
        lemma_string_items_first(s.drop_last());
        assert(s.drop_last().drop_first() =~= s.drop_first().drop_last());
        assert(s.drop_first().last() == s.last());
        assert(s.drop_last()[0] == s[0]);
        if s.len() == 2 {
            assert(s.drop_first().drop_last() =~= Seq::<String>::empty());
        }
        assert(json_string_items(s) =~= json_string(s[0]@) + (","@ + json_string_items(s.drop_first())));
    }
}

proof fn lemma_string_items_prefix(s1: Seq<String>, s2: Seq<String>, r1: Seq<char>, r2: Seq<char>)
    requires
        json_string_items(s1) + (seq![']'] + r1) == json_string_items(s2) + (seq![']'] + r2),
    ensures
        texts(s1) == texts(s2),
        r1 == r2,
    decreases s1.len(),
{
    reveal_strlit(",");
    let t = json_string_items(s1) + (seq![']'] + r1);
    if s1.len() == 0 || s2.len() == 0 {
        if s1.len() == 0 {
            assert(t[0] == ']');
        } else {
            assert(t =~= json_string_items(s2) + (seq![']'] + r2));
            assert(t[0] == ']');
        }
        if s1.len() > 0 {
            lemma_string_items_first(s1);
            assert(t[0] == json_string(s1[0]@)[0]);
        }
        if s2.len() > 0 {
            lemma_string_items_first(s2);
            assert(t[0] == json_string(s2[0]@)[0]);
        }
        lemma_split_eq(seq![']'], r1, seq![']'], r2);
        assert(texts(s1) =~= texts(s2));
    } else {
        lemma_string_items_first(s1);
        lemma_string_items_first(s2);
        let tail1 = if s1.len() == 1 {
            seq![']'] + r1
        } else {
            ","@ + (json_string_items(s1.drop_first()) + (seq![']'] + r1))
        };
        let tail2 = if s2.len() == 1 {
            seq![']'] + r2
        } else {
            ","@ + (json_string_items(s2.drop_first()) + (seq![']'] + r2))
        };
        assert(t =~= json_string(s1[0]@) + tail1);
        assert(t =~= json_string(s2[0]@) + tail2);
        lemma_json_string_prefix(s1[0]@, s2[0]@, tail1, tail2);
        if s1.len() == 1 || s2.len() == 1 {
            assert(tail1[0] == tail2[0]);
            lemma_split_eq(seq![']'], r1, seq![']'], r2);
            assert(texts(s1) =~= texts(s2));
        } else {
            lemma_peel(
                ","@,
                json_string_items(s1.drop_first()) + (seq![']'] + r1),
                json_string_items(s2.drop_first()) + (seq![']'] + r2),
            );
            lemma_string_items_prefix(s1.drop_first(), s2.drop_first(), r1, r2);
            assert(texts(s1.drop_first()) == texts(s2.drop_first()));
            assert forall|i: int| 0 <= i < s1.len() implies texts(s1)[i] == texts(s2)[i] by {
                if i > 0 {
                    assert(texts(s1)[i] == texts(s1.drop_first())[i - 1]);
                    assert(texts(s2)[i] == texts(s2.drop_first())[i - 1]);
                }
            }
            assert(texts(s1) =~= texts(s2));
        }
    }
}

/// An attachment object followed by more text, nested from the right.
pub open spec fn nested_attachment(a: AttachmentReference, r: Seq<char>) -> Seq<char> {
    "{\"id\":"@ + (
        json_string(a.id@) + (
        ",\"media_type\":"@ + (
        json_string(a.media_type@) + (
        ",\"byte_length\":"@ + (
        decimal(a.byte_length as nat) + (
        ",\"content_hash\":"@ + (
        json_string(a.content_hash@) + (
        ",\"storage_url\":"@ + (
        json_opt_string(a.storage_url) + (
        "}"@ + (
        r
    )))))))))))
}

proof fn lemma_nested_attachment(a: AttachmentReference, r: Seq<char>)
    ensures
        attachment_json(a) + r == nested_attachment(a, r),
{
    reveal(attachment_json);
    let p0 = "{\"id\":"@;
    let p1 = json_string(a.id@);
    let p2 = ",\"media_type\":"@;
    let p3 = json_string(a.media_type@);
    let p4 = ",\"byte_length\":"@;
    let p5 = decimal(a.byte_length as nat);
    let p6 = ",\"content_hash\":"@;
    let p7 = json_string(a.content_hash@);
    let p8 = ",\"storage_url\":"@;
    let p9 = json_opt_string(a.storage_url);
    let p10 = "}"@;
    let p11 = r;
    let a0 = p0;
    let a1 = a0 + p1;
    let a2 = a1 + p2;
    let a3 = a2 + p3;
    let a4 = a3 + p4;
    let a5 = a4 + p5;
    let a6 = a5 + p6;
    let a7 = a6 + p7;
    let a8 = a7 + p8;
    let a9 = a8 + p9;
    let a10 = a9 + p10;
    let a11 = a10 + p11;
    let r11 = p11;
    let r10 = p10 + r11;
    let r9 = p9 + r10;
    let r8 = p8 + r9;
    let r7 = p7 + r8;
    let r6 = p6 + r7;
    let r5 = p5 + r6;
    let r4 = p4 + r5;
    let r3 = p3 + r4;
    let r2 = p2 + r3;
    let r1 = p1 + r2;
    let r0 = p0 + r1;
    assert(attachment_json(a) + r == a11);
    lemma_concat_associative(a0, p1, r2);
    lemma_concat_associative(a1, p2, r3);
    lemma_concat_associative(a2, p3, r4);
    lemma_concat_associative(a3, p4, r5);
    lemma_concat_associative(a4, p5, r6);
    lemma_concat_associative(a5, p6, r7);
    lemma_concat_associative(a6, p7, r8);
    lemma_concat_associative(a7, p8, r9);
    lemma_concat_associative(a8, p9, r10);
    lemma_concat_associative(a9, p10, r11);
    assert(r0 == a0 + r1);
}

proof fn lemma_attachment_prefix(a1: AttachmentReference, a2: AttachmentReference, r1: Seq<char>, r2: Seq<char>)
    requires
        attachment_json(a1) + r1 == attachment_json(a2) + r2,
    ensures
        attachment_fields(a1) == attachment_fields(a2),
        r1 == r2,
{
    reveal_strlit(",\"content_hash\":");
    lemma_nested_attachment(a1, r1);
    lemma_nested_attachment(a2, r2);
    let x1 = ",\"content_hash\":"@ + (json_string(a1.content_hash@) + (",\"storage_url\":"@ + (json_opt_string(a1.storage_url) + ("}"@ + r1))));
    let x2 = ",\"content_hash\":"@ + (json_string(a2.content_hash@) + (",\"storage_url\":"@ + (json_opt_string(a2.storage_url) + ("}"@ + r2))));
    let y1 = json_string(a1.media_type@) + (",\"byte_length\":"@ + (decimal(a1.byte_length as nat) + x1));
    let y2 = json_string(a2.media_type@) + (",\"byte_length\":"@ + (decimal(a2.byte_length as nat) + x2));
    lemma_peel("{\"id\":"@, json_string(a1.id@) + (",\"media_type\":"@ + y1), json_string(a2.id@) + (",\"media_type\":"@ + y2));
    lemma_json_string_prefix(a1.id@, a2.id@, ",\"media_type\":"@ + y1, ",\"media_type\":"@ + y2);
    lemma_peel(",\"media_type\":"@, y1, y2);
    lemma_json_string_prefix(a1.media_type@, a2.media_type@, ",\"byte_length\":"@ + (decimal(a1.byte_length as nat) + x1), ",\"byte_length\":"@ + (decimal(a2.byte_length as nat) + x2));
    lemma_peel(",\"byte_length\":"@, decimal(a1.byte_length as nat) + x1, decimal(a2.byte_length as nat) + x2);
    assert(x1[0] == ',');
    assert(x2[0] == ',');
    lemma_decimal_prefix(a1.byte_length as nat, a2.byte_length as nat, x1, x2);
    let z1 = ",\"storage_url\":"@ + (json_opt_string(a1.storage_url) + ("}"@ + r1));
    let z2 = ",\"storage_url\":"@ + (json_opt_string(a2.storage_url) + ("}"@ + r2));
    lemma_peel(",\"content_hash\":"@, json_string(a1.content_hash@) + z1, json_string(a2.content_hash@) + z2);
    lemma_json_string_prefix(a1.content_hash@, a2.content_hash@, z1, z2);
    lemma_peel(",\"storage_url\":"@, json_opt_string(a1.storage_url) + ("}"@ + r1), json_opt_string(a2.storage_url) + ("}"@ + r2));
    lemma_opt_prefix(a1.storage_url, a2.storage_url, "}"@ + r1, "}"@ + r2);
    lemma_peel("}"@, r1, r2);
}


proof fn lemma_attachment_items_first(s: Seq<AttachmentReference>)
    requires
        s.len() > 0,
    ensures
        attachment_items(s) == attachment_json(s[0]) + (if s.len() == 1 {
            Seq::<char>::empty()
        } else {
            ","@ + attachment_items(s.drop_first())
        }),
    decreases s.len(),
{
    if s.len() == 1 {
        assert(s.drop_last() =~= Seq::<AttachmentReference>::empty());
        assert(attachment_items(s.drop_last()) =~= Seq::<char>::empty());
        assert(attachment_items(s) =~= attachment_json(s[0]));
    } else {
        lemma_attachment_items_first(s.drop_last());
        assert(s.drop_last().drop_first() =~= s.drop_first().drop_last());
        assert(s.drop_first().last() == s.last());
        assert(s.drop_last()[0] == s[0]);
        if s.len() == 2 {
            assert(s.drop_first().drop_last() =~= Seq::<AttachmentReference>::empty());
        }
        assert(attachment_items(s) =~= attachment_json(s[0]) + (","@ + attachment_items(s.drop_first())));
    }
}

proof fn lemma_attachment_first_char(a: AttachmentReference)
    ensures
        attachment_json(a).len() > 0,
        attachment_json(a)[0] == '{',
{
    reveal_strlit("{\"id\":");
    lemma_nested_attachment(a, Seq::empty());
    assert(attachment_json(a) =~= attachment_json(a) + Seq::<char>::empty());
}

proof fn lemma_attachment_items_prefix(
    s1: Seq<AttachmentReference>,
    s2: Seq<AttachmentReference>,
    r1: Seq<char>,
    r2: Seq<char>,
)
    requires
        attachment_items(s1) + (seq![']'] + r1) == attachment_items(s2) + (seq![']'] + r2),
    ensures
        attachment_views(s1) == attachment_views(s2),
        r1 == r2,
    decreases s1.len(),
{
    reveal_strlit(",");
    let t = attachment_items(s1) + (seq![']'] + r1);
    if s1.len() == 0 || s2.len() == 0 {
        if s1.len() == 0 {
            assert(t[0] == ']');
        } else {
            assert(t =~= attachment_items(s2) + (seq![']'] + r2));
            assert(t[0] == ']');
        }
        if s1.len() > 0 {
            lemma_attachment_items_first(s1);
            lemma_attachment_first_char(s1[0]);
            assert(t[0] == attachment_json(s1[0])[0]);
        }
        if s2.len() > 0 {
            lemma_attachment_items_first(s2);
            lemma_attachment_first_char(s2[0]);
            assert(t[0] == attachment_json(s2[0])[0]);
        }
        lemma_split_eq(seq![']'], r1, seq![']'], r2);
        assert(attachment_views(s1) =~= attachment_views(s2));
    } else {
        lemma_attachment_items_first(s1);
        lemma_attachment_items_first(s2);
        let tail1 = if s1.len() == 1 {
            seq![']'] + r1
        } else {
            ","@ + (attachment_items(s1.drop_first()) + (seq![']'] + r1))
        };
        let tail2 = if s2.len() == 1 {
            seq![']'] + r2
        } else {
            ","@ + (attachment_items(s2.drop_first()) + (seq![']'] + r2))
        };
        assert(t =~= attachment_json(s1[0]) + tail1);
        assert(t =~= attachment_json(s2[0]) + tail2);
        lemma_attachment_prefix(s1[0], s2[0], tail1, tail2);
        if s1.len() == 1 || s2.len() == 1 {
            assert(tail1[0] == tail2[0]);
            lemma_split_eq(seq![']'], r1, seq![']'], r2);
            assert(attachment_views(s1) =~= attachment_views(s2));
        } else {
            lemma_peel(
                ","@,
                attachment_items(s1.drop_first()) + (seq![']'] + r1),
                attachment_items(s2.drop_first()) + (seq![']'] + r2),
            );
            lemma_attachment_items_prefix(s1.drop_first(), s2.drop_first(), r1, r2);
            assert(attachment_views(s1.drop_first()).len() == s1.len() - 1);
            assert(attachment_views(s2.drop_first()).len() == s2.len() - 1);
            assert forall|i: int| 0 <= i < s1.len() implies attachment_views(s1)[i] == attachment_views(s2)[i] by {
                if i > 0 {
                    assert(attachment_views(s1)[i] == attachment_views(s1.drop_first())[i - 1]);
                    assert(attachment_views(s2)[i] == attachment_views(s2.drop_first())[i - 1]);
                }
            }
            assert(attachment_views(s1) =~= attachment_views(s2));
        }
    }
}

proof fn lemma_scope_name_injective(a: EventScope, b: EventScope)
    requires
        scope_name(a) == scope_name(b),
    ensures
        a == b,
{
    reveal_strlit("private");
    reveal_strlit("room");
    reveal_strlit("community");
    reveal_strlit("federated");
    reveal_strlit("public");
    let n = scope_name(a);
    assert(n.len() == 7 ==> a is Private);
    assert(n.len() == 4 ==> a is Room);
    assert(n.len() == 6 ==> a is Public);
    assert(n.len() == 9 && n[0] == 'c' ==> a is Community);
    assert(n.len() == 9 && n[0] == 'f' ==> a is Federated);
    assert(n.len() == 7 ==> b is Private);
    assert(n.len() == 4 ==> b is Room);
    assert(n.len() == 6 ==> b is Public);
    assert(n.len() == 9 && n[0] == 'c' ==> b is Community);
    assert(n.len() == 9 && n[0] == 'f' ==> b is Federated);
}

/// What two events agree on when they have the same signing payload: every
/// field but the signature, strings by their text, and the content as a JSON
/// value (`json_same`) and by its JSON text.
pub open spec fn same_signed_fields(a: ProtocolEvent, b: ProtocolEvent) -> bool {
    &&& a.protocol@ == b.protocol@
    &&& a.id@ == b.id@
    &&& a.schema@ == b.schema@
    &&& a.version == b.version
    &&& a.author_id@ == b.author_id@
    &&& a.device_id@ == b.device_id@
    &&& opt_text(a.room_id) == opt_text(b.room_id)
    &&& a.created_at@ == b.created_at@
    &&& a.client_sequence == b.client_sequence
    &&& texts(a.parent_ids@) == texts(b.parent_ids@)
    &&& a.scope == b.scope
    &&& opt_text(a.expires_at) == opt_text(b.expires_at)
    &&& json_value(a.content) == json_value(b.content)
    &&& json_same(a.content, b.content)
    &&& attachment_views(a.attachments@) == attachment_views(b.attachments@)
}

/// The signature covers every field: two events whose content numbers are
/// number text and whose signing payloads are the same agree on every field
/// but the signature. So a change to any signed field (the content, the
/// sequence, the room, the author, ...) changes the bytes that are signed
/// and hashed.
#[verifier::rlimit(100)]
pub proof fn signing_payload_decides_fields(a: ProtocolEvent, b: ProtocolEvent)
    requires
        json_valid(a.content),
        json_valid(b.content),
        signing_payload(a) == signing_payload(b),
    ensures
        same_signed_fields(a, b),
{
    reveal_strlit("{\"protocol\":");
    reveal_strlit(",\"id\":");
    reveal_strlit(",\"schema\":");
    reveal_strlit(",\"version\":");
    reveal_strlit(",\"author_id\":");
    reveal_strlit(",\"device_id\":");
    reveal_strlit(",\"room_id\":");
    reveal_strlit(",\"created_at\":");
    reveal_strlit(",\"client_sequence\":");
    reveal_strlit(",\"parent_ids\":[");
    reveal_strlit("],\"scope\":");
    reveal_strlit(",\"expires_at\":");
    reveal_strlit(",\"content\":");
    reveal_strlit(",\"attachments\":[");
    reveal_strlit("]}");
    reveal_strlit(",\"scope\":");
    encode_utf8_decode_utf8(signing_text(a));
    encode_utf8_decode_utf8(signing_text(b));
    lemma_nested_signing_text(a);
    lemma_nested_signing_text(b);
    let ra28 = "]}"@;
    let ra27 = attachment_items(a.attachments@) + ra28;
    let ra26 = ",\"attachments\":["@ + ra27;
    let ra25 = json_value(a.content) + ra26;
    let ra24 = ",\"content\":"@ + ra25;
    let ra23 = json_opt_string(a.expires_at) + ra24;
    let ra22 = ",\"expires_at\":"@ + ra23;
    let ra21 = json_string(scope_name(a.scope)) + ra22;
    let ra20 = "],\"scope\":"@ + ra21;
    let ra19 = json_string_items(a.parent_ids@) + ra20;
    let ra18 = ",\"parent_ids\":["@ + ra19;
    let ra17 = decimal(a.client_sequence as nat) + ra18;
    let ra16 = ",\"client_sequence\":"@ + ra17;
    let ra15 = json_string(a.created_at@) + ra16;
    let ra14 = ",\"created_at\":"@ + ra15;
    let ra13 = json_opt_string(a.room_id) + ra14;
    let ra12 = ",\"room_id\":"@ + ra13;
    let ra11 = json_string(a.device_id@) + ra12;
    let ra10 = ",\"device_id\":"@ + ra11;
    let ra9 = json_string(a.author_id@) + ra10;
    let ra8 = ",\"author_id\":"@ + ra9;
    let ra7 = decimal(a.version as nat) + ra8;
    let ra6 = ",\"version\":"@ + ra7;
    let ra5 = json_string(a.schema@) + ra6;
    let ra4 = ",\"schema\":"@ + ra5;
    let ra3 = json_string(a.id@) + ra4;
    let ra2 = ",\"id\":"@ + ra3;
    let ra1 = json_string(a.protocol@) + ra2;
    let ra0 = "{\"protocol\":"@ + ra1;
    let rb28 = "]}"@;
    let rb27 = attachment_items(b.attachments@) + rb28;
    let rb26 = ",\"attachments\":["@ + rb27;
    let rb25 = json_value(b.content) + rb26;
    let rb24 = ",\"content\":"@ + rb25;
    let rb23 = json_opt_string(b.expires_at) + rb24;
    let rb22 = ",\"expires_at\":"@ + rb23;
    let rb21 = json_string(scope_name(b.scope)) + rb22;
    let rb20 = "],\"scope\":"@ + rb21;
    let rb19 = json_string_items(b.parent_ids@) + rb20;
    let rb18 = ",\"parent_ids\":["@ + rb19;
    let rb17 = decimal(b.client_sequence as nat) + rb18;
    let rb16 = ",\"client_sequence\":"@ + rb17;
    let rb15 = json_string(b.created_at@) + rb16;
    let rb14 = ",\"created_at\":"@ + rb15;
    let rb13 = json_opt_string(b.room_id) + rb14;
    let rb12 = ",\"room_id\":"@ + rb13;
    let rb11 = json_string(b.device_id@) + rb12;
    let rb10 = ",\"device_id\":"@ + rb11;
    let rb9 = json_string(b.author_id@) + rb10;
    let rb8 = ",\"author_id\":"@ + rb9;
    let rb7 = decimal(b.version as nat) + rb8;
    let rb6 = ",\"version\":"@ + rb7;
    let rb5 = json_string(b.schema@) + rb6;
    let rb4 = ",\"schema\":"@ + rb5;
    let rb3 = json_string(b.id@) + rb4;
    let rb2 = ",\"id\":"@ + rb3;
    let rb1 = json_string(b.protocol@) + rb2;
    let rb0 = "{\"protocol\":"@ + rb1;
    assert(nested_signing_text(a) == ra0);
    assert(nested_signing_text(b) == rb0);
    lemma_peel("{\"protocol\":"@, ra1, rb1);
    lemma_json_string_prefix(a.protocol@, b.protocol@, ra2, rb2);
    lemma_peel(",\"id\":"@, ra3, rb3);
    lemma_json_string_prefix(a.id@, b.id@, ra4, rb4);
    lemma_peel(",\"schema\":"@, ra5, rb5);
    lemma_json_string_prefix(a.schema@, b.schema@, ra6, rb6);
    lemma_peel(",\"version\":"@, ra7, rb7);
    assert(ra8[0] == ',' && rb8[0] == ',');
    lemma_decimal_prefix(a.version as nat, b.version as nat, ra8, rb8);
    lemma_peel(",\"author_id\":"@, ra9, rb9);
    lemma_json_string_prefix(a.author_id@, b.author_id@, ra10, rb10);
    lemma_peel(",\"device_id\":"@, ra11, rb11);
    lemma_json_string_prefix(a.device_id@, b.device_id@, ra12, rb12);
    lemma_peel(",\"room_id\":"@, ra13, rb13);
    lemma_opt_prefix(a.room_id, b.room_id, ra14, rb14);
    lemma_peel(",\"created_at\":"@, ra15, rb15);
    lemma_json_string_prefix(a.created_at@, b.created_at@, ra16, rb16);
    lemma_peel(",\"client_sequence\":"@, ra17, rb17);
    assert(ra18[0] == ',' && rb18[0] == ',');
    lemma_decimal_prefix(a.client_sequence as nat, b.client_sequence as nat, ra18, rb18);
    lemma_peel(",\"parent_ids\":["@, ra19, rb19);
    let sa = ",\"scope\":"@ + ra21;
    let sb = ",\"scope\":"@ + rb21;
    assert(ra20 =~= seq![']'] + sa);
    assert(rb20 =~= seq![']'] + sb);
    lemma_string_items_prefix(a.parent_ids@, b.parent_ids@, sa, sb);
    lemma_peel(",\"scope\":"@, ra21, rb21);
    lemma_json_string_prefix(scope_name(a.scope), scope_name(b.scope), ra22, rb22);
    lemma_scope_name_injective(a.scope, b.scope);
    lemma_peel(",\"expires_at\":"@, ra23, rb23);
    lemma_opt_prefix(a.expires_at, b.expires_at, ra24, rb24);
    lemma_peel(",\"content\":"@, ra25, rb25);
    assert(ra26[0] == ',' && rb26[0] == ',');
    lemma_value_prefix(a.content, b.content, ra26, rb26);
    lemma_peel(",\"attachments\":["@, ra27, rb27);
    assert(ra28 =~= seq![']'] + seq!['}']);
    assert(rb28 =~= seq![']'] + seq!['}']);
    lemma_attachment_items_prefix(a.attachments@, b.attachments@, seq!['}'], seq!['}']);
}

} // verus!
