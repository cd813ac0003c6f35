use activity_report::aggregate::{aggregate, category_of, Category, Membership, Time};
use activity_report::identity::{matches_forms, normalize, same_id, MemberRef, PersonId};
use activity_report::pipeline::build_report;
use activity_report::report::{column_names, ReportTable};
use activity_report::transcode::transcode_record;
use activity_report::user::User;

fn pid(last: u8) -> PersonId {
    let mut bytes = [0u8; 12];
    bytes[0] = 0x65;
    bytes[1] = 0xaf;
    bytes[11] = last;
    PersonId { bytes }
}

fn user(last: u8, name: &str) -> User {
    User {
        _id: pid(last),
        id: format!("2023{}", last),
        name: name.to_string(),
        group: vec![],
        password: String::new(),
    }
}

fn native(last: u8, mode: &str, duration: u64) -> Membership {
    Membership { member: MemberRef::Native(pid(last)), mode: mode.to_string(), duration }
}

fn hex(last: u8, mode: &str, duration: u64) -> Membership {
    let h = normalize(&pid(last)).hex;
    Membership { member: MemberRef::Hex(h), mode: mode.to_string(), duration }
}

#[test]
fn hex_form_is_lowercase_two_digits_per_byte() {
    let forms = normalize(&pid(0x3c));
    assert_eq!(forms.hex, "65af0000000000000000003c");
    assert_eq!(forms.native.bytes, pid(0x3c).bytes);
}

#[test]
fn hex_form_of_all_bytes() {
    let id = PersonId { bytes: [0x00, 0x01, 0x09, 0x0a, 0x0f, 0x10, 0x7f, 0x80, 0xab, 0xcd, 0xef, 0xff] };
    assert_eq!(normalize(&id).hex, "0001090a0f107f80abcdefff");
}

#[test]
fn references_match_in_either_form() {
    let forms = normalize(&pid(1));
    assert!(matches_forms(&MemberRef::Native(pid(1)), &forms));
    assert!(matches_forms(&MemberRef::Hex("65af00000000000000000001".to_string()), &forms));
    assert!(!matches_forms(&MemberRef::Native(pid(2)), &forms));
    assert!(!matches_forms(&MemberRef::Hex("65AF00000000000000000001".to_string()), &forms));
    assert!(!matches_forms(&MemberRef::Hex("65af00000000000000000002".to_string()), &forms));
    assert!(same_id(&pid(7), &pid(7)));
    assert!(!same_id(&pid(7), &pid(8)));
}

#[test]
fn categories_from_tags() {
    assert_eq!(category_of(&"on-campus".to_string()), Category::OnCampus);
    assert_eq!(category_of(&"off-campus".to_string()), Category::OffCampus);
    assert_eq!(category_of(&"social-practice".to_string()), Category::SocialPractice);
    assert_eq!(category_of(&"volunteer".to_string()), Category::Other);
    assert_eq!(category_of(&"On-Campus".to_string()), Category::Other);
    assert_eq!(category_of(&String::new()), Category::Other);
}

#[test]
fn person_a_on_and_off_campus() {
    let ms = vec![native(1, "on-campus", 2000), native(1, "off-campus", 1500)];
    let t = aggregate(&normalize(&pid(1)), &ms);
    assert_eq!(
        t,
        Some(Time { on_campus: 2000, off_campus: 1500, social_practice: 0, total: 3500 })
    );
    let table = build_report(&vec![user(1, "A")], &ms);
    let rows = table.finalize();
    assert_eq!(rows.len(), 1);
    assert_eq!(rows[0].id, "65af00000000000000000001");
    assert_eq!(rows[0].name, "A");
    assert_eq!(rows[0].class, "");
    assert_eq!(rows[0].time, Time { on_campus: 2000, off_campus: 1500, social_practice: 0, total: 3500 });
}

#[test]
fn person_b_without_memberships_has_no_row() {
    let ms = vec![native(1, "on-campus", 2000)];
    assert_eq!(aggregate(&normalize(&pid(2)), &ms), None);
    assert_eq!(aggregate(&normalize(&pid(2)), &vec![]), None);
    let table = build_report(&vec![user(1, "A"), user(2, "B")], &ms);
    assert_eq!(table.len(), 1);
    assert!(table.rows().iter().all(|r| r.id != "65af00000000000000000002"));
}

#[test]
fn person_c_referenced_by_string_form_only() {
    let ms = vec![hex(3, "on-campus", 2000), hex(3, "off-campus", 1500)];
    let t = aggregate(&normalize(&pid(3)), &ms);
    assert_eq!(
        t,
        Some(Time { on_campus: 2000, off_campus: 1500, social_practice: 0, total: 3500 })
    );
    let as_native = vec![native(3, "on-campus", 2000), native(3, "off-campus", 1500)];
    assert_eq!(aggregate(&normalize(&pid(3)), &as_native), t);
}

#[test]
fn mixed_forms_are_summed_together() {
    let ms = vec![native(4, "social-practice", 250), hex(4, "social-practice", 750), native(5, "social-practice", 9000)];
    assert_eq!(
        aggregate(&normalize(&pid(4)), &ms),
        Some(Time { on_campus: 0, off_campus: 0, social_practice: 1000, total: 1000 })
    );
}

#[test]
fn unknown_category_counts_toward_total_only() {
    let ms = vec![native(6, "volunteer", 4000)];
    assert_eq!(
        aggregate(&normalize(&pid(6)), &ms),
        Some(Time { on_campus: 0, off_campus: 0, social_practice: 0, total: 4000 })
    );
}

#[test]
fn named_totals_within_grand_total() {
    let ms = vec![native(7, "on-campus", 1000), native(7, "volunteer", 500), native(7, "social-practice", 250)];
    let t = aggregate(&normalize(&pid(7)), &ms).unwrap();
    assert!(t.on_campus + t.off_campus + t.social_practice < t.total);
    assert_eq!(t.total, 1750);
    let named = vec![native(7, "on-campus", 1000), native(7, "social-practice", 250)];
    let t = aggregate(&normalize(&pid(7)), &named).unwrap();
    assert_eq!(t.on_campus + t.off_campus + t.social_practice, t.total);
}

#[test]
fn zero_durations_are_present_not_absent() {
    let ms = vec![native(8, "on-campus", 0)];
    assert_eq!(
        aggregate(&normalize(&pid(8)), &ms),
        Some(Time { on_campus: 0, off_campus: 0, social_practice: 0, total: 0 })
    );
    assert_eq!(build_report(&vec![user(8, "Z")], &ms).len(), 1);
}

#[test]
fn largest_durations_do_not_overflow() {
    let ms = vec![native(9, "off-campus", u64::MAX), native(9, "off-campus", u64::MAX), native(9, "x", u64::MAX)];
    let t = aggregate(&normalize(&pid(9)), &ms).unwrap();
    assert_eq!(t.off_campus, 2 * (u64::MAX as u128));
    assert_eq!(t.total, 3 * (u64::MAX as u128));
}

#[test]
fn report_keeps_order_and_repeats() {
    let ms = vec![native(1, "on-campus", 1000), hex(3, "off-campus", 2000)];
    let users = vec![user(3, "C"), user(2, "B"), user(1, "A"), user(3, "C")];
    let rows = build_report(&users, &ms).finalize();
    let names: Vec<&str> = rows.iter().map(|r| r.name.as_str()).collect();
    assert_eq!(names, vec!["C", "A", "C"]);
    assert_eq!(rows[1].time.total, 1000);
    assert_eq!(rows[0].time.off_campus, 2000);
}

#[test]
fn report_is_identical_on_a_second_run() {
    let ms = vec![native(1, "on-campus", 1000), hex(2, "volunteer", 300), native(2, "off-campus", 700)];
    let users = vec![user(1, "A"), user(2, "B"), user(5, "E")];
    let a = build_report(&users, &ms).finalize();
    let b = build_report(&users, &ms).finalize();
    assert_eq!(a.len(), 2);
    assert_eq!(a.len(), b.len());
    for (x, y) in a.iter().zip(b.iter()) {
        assert_eq!(x.id, y.id);
        assert_eq!(x.name, y.name);
        assert_eq!(x.class, y.class);
        assert_eq!(x.time, y.time);
    }
}

#[test]
fn table_append_skips_absent() {
    let mut table = ReportTable::new();
    assert_eq!(table.len(), 0);
    table.append("a".to_string(), "A".to_string(), None);
    assert_eq!(table.len(), 0);
    let t = Time { on_campus: 1, off_campus: 2, social_practice: 3, total: 6 };
    table.append("b".to_string(), "B".to_string(), Some(t));
    table.append("b".to_string(), "B".to_string(), Some(t));
    let rows = table.finalize();
    assert_eq!(rows.len(), 2);
    assert_eq!(rows[1].id, "b");
    assert_eq!(rows[1].class, "");
    assert_eq!(rows[1].time, t);
}

#[test]
fn column_schema() {
    assert_eq!(
        column_names(),
        vec!["id", "display_name", "placeholder", "on_campus", "off_campus", "social_practice", "total"]
    );
}

#[test]
fn fields_transcode_to_gbk() {
    let fields = vec!["id".to_string(), "\u{4f60}\u{597d}".to_string(), String::new()];
    let out = transcode_record(&fields);
    assert_eq!(out.len(), 3);
    assert_eq!(out[0], b"id".to_vec());
    assert_eq!(out[1], vec![0xc4, 0xe3, 0xba, 0xc3]);
    assert_eq!(out[2], Vec::<u8>::new());
}
