use hexisle::tags::TagGroups;
use hexisle::tags::TagNames;
use hexisle::tags::Tags;

#[test]
fn test_remove() {
    let mut tags = Tags::new(&[TagNames::Life]);
    assert!(!tags.has_tag(TagNames::Air));
    assert!(tags.has_tag(TagNames::Life));
    tags.add_tag(TagNames::Air);
    assert!(tags.has_tag(TagNames::Air));
    assert!(tags.has_tag(TagNames::Life));
    tags.remove_tag(TagNames::Life);
    assert!(tags.has_tag(TagNames::Air));
    assert!(!tags.has_tag(TagNames::Life));
    tags.remove_tag(TagNames::Air);
    assert!(!tags.has_tag(TagNames::Air));
    assert!(!tags.has_tag(TagNames::Life));
}

#[test]
fn groups() {
    let tags = Tags::new(&[TagNames::Life, TagNames::Air, TagNames::Earth]);
    assert!(tags.in_group(TagGroups::Heavy).has_tag(TagNames::Earth));
    assert!(!tags.in_group(TagGroups::Heavy).has_tag(TagNames::Air));
    assert!(!tags.not_in_group(TagGroups::Heavy).has_tag(TagNames::Earth));
    assert!(tags.not_in_group(TagGroups::Heavy).has_tag(TagNames::Air));
}

#[test]
fn empty_set_has_nothing() {
    let t = Tags::empty();
    assert_eq!(t.0, 0);
    assert_eq!(t.count(), 0);
    assert!(!t.has_tag(TagNames::Water));
    assert!(t.get_tag_names().is_empty());
}

#[test]
fn new_packs_the_right_bits() {
    let t = Tags::new(&[TagNames::Tropical, TagNames::Fire, TagNames::Time]);
    assert_eq!(t.0, 0x01 | 0x20 | 0x80);
    assert_eq!(t.count(), 3);
}

#[test]
fn has_all_and_has_any() {
    let t = Tags::new(&[TagNames::Water, TagNames::Fire]);
    assert!(t.has_all(&[TagNames::Water]));
    assert!(t.has_all(&[TagNames::Water, TagNames::Fire]));
    assert!(!t.has_all(&[TagNames::Water, TagNames::Earth]));
    assert!(t.has_any(&[TagNames::Earth, TagNames::Fire]));
    assert!(!t.has_any(&[TagNames::Earth, TagNames::Life]));
}

#[test]
fn tag_names_come_back_in_canonical_order() {
    let t = Tags::new(&[TagNames::Time, TagNames::Life, TagNames::Water]);
    let names = t.get_tag_names();
    assert_eq!(names, vec![TagNames::Life, TagNames::Water, TagNames::Time]);
}

#[test]
fn with_tag_leaves_the_original_alone() {
    let t = Tags::new(&[TagNames::Air]);
    let u = t.with_tag(TagNames::Fibrous);
    assert!(u.has_tag(TagNames::Air));
    assert!(u.has_tag(TagNames::Fibrous));
    assert!(!t.has_tag(TagNames::Fibrous));
    assert_eq!(u.count(), 2);
}
