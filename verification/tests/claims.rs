use coolabah::claims::{Area, Claims, Target, Watched};
use coolabah::event::{Event, Kind, SystemWoke};
use coolabah::kindset::KindSet;

fn holder(index: u64) -> Watched {
    Watched::item(index)
}

/// An item at `x` on display 1, the width of a small item.
fn at(index: u64, x: f64) -> Watched {
    Watched::over(
        index,
        Area {
            display: 1,
            x: x.to_bits(),
            y: 0.0f64.to_bits(),
            width: 40.0f64.to_bits(),
            height: 24.0f64.to_bits(),
        },
    )
}

fn names(kinds: &KindSet) -> Vec<String> {
    let mut names = Vec::new();
    for i in 0..kinds.len() {
        names.push(kinds.at(i).name().to_owned());
    }
    names.sort();
    names
}

fn woke() -> Event {
    Event::SystemWoke(SystemWoke {})
}

#[test]
fn a_second_claim_on_one_event_is_a_handle_on_the_first() {
    let mut claims = Claims::new();
    let first = claims.take(holder(1), &Kind::SystemWoke, &Target::All);
    let second = claims.take(holder(2), &Kind::SystemWoke, &Target::All);
    assert!(first.same_claim(&second), "one claim, two handles — not two claims");
}

#[test]
fn an_event_stays_wanted_until_the_last_handle_goes() {
    let mut claims = Claims::new();
    let first = claims.take(holder(1), &Kind::SystemWoke, &Target::All);
    let second = claims.take(holder(2), &Kind::SystemWoke, &Target::All);

    claims.release(first);
    assert_eq!(names(&claims.wanted()), ["system_woke"]);

    claims.release(second);
    assert!(claims.wanted().is_empty());
}

#[test]
fn a_claim_taken_again_after_dying_is_a_fresh_one() {
    let mut claims = Claims::new();
    let watch = claims.take(holder(1), &Kind::SystemWoke, &Target::All);
    claims.release(watch);
    assert!(claims.wanted().is_empty());

    let revived = claims.take(holder(1), &Kind::SystemWoke, &Target::All);
    assert_eq!(names(&claims.wanted()), ["system_woke"]);
    claims.release(revived);
}

#[test]
fn an_occurrence_goes_to_everything_that_depends_on_it() {
    let mut claims = Claims::new();
    let first = claims.take(holder(1), &Kind::SystemWoke, &Target::All);
    let second = claims.take(holder(2), &Kind::SystemWoke, &Target::All);

    let both = claims.dependents(&woke(), &Target::All);
    assert_eq!(both.len(), 2);
    assert!(both.contains(&1) && both.contains(&2));

    claims.release(first);
    assert_eq!(claims.dependents(&woke(), &Target::All), vec![2]);
    claims.release(second);
    assert!(claims.dependents(&woke(), &Target::All).is_empty());
}

#[test]
fn an_item_with_two_handles_is_told_until_both_are_back() {
    let mut claims = Claims::new();
    let first = claims.take(holder(1), &Kind::SystemWoke, &Target::All);
    let second = claims.take(holder(1), &Kind::SystemWoke, &Target::All);
    assert_eq!(claims.dependents(&woke(), &Target::All), vec![1], "once, however many it holds");

    claims.release(first);
    assert_eq!(claims.dependents(&woke(), &Target::All), vec![1], "it still holds the other");

    claims.release(second);
    assert!(claims.dependents(&woke(), &Target::All).is_empty());
    assert!(claims.wanted().is_empty());
}

#[test]
fn an_event_nobody_asked_for_reaches_nobody() {
    let claims = Claims::new();
    assert!(claims.dependents(&woke(), &Target::All).is_empty());
}

#[test]
fn two_items_claiming_the_same_scoped_kind_get_separate_claims() {
    let mut claims = Claims::new();
    let mine = claims.take(holder(1), &Kind::MouseClicked(()), &Target::All);
    let theirs = claims.take(holder(2), &Kind::MouseClicked(()), &Target::All);
    assert!(
        !mine.same_claim(&theirs),
        "a scoped kind must not share one item's claim with another's"
    );
}

#[test]
fn a_scoped_kind_still_shares_one_claim_for_the_same_item() {
    let mut claims = Claims::new();
    let first = claims.take(holder(1), &Kind::MouseClicked(()), &Target::All);
    let second = claims.take(holder(1), &Kind::MouseClicked(()), &Target::All);
    assert!(first.same_claim(&second));
}

#[test]
fn wanted_erases_the_item_a_scoped_kind_carries() {
    let mut claims = Claims::new();
    let _mine = claims.take(holder(1), &Kind::MouseClicked(()), &Target::All);
    let _theirs = claims.take(holder(2), &Kind::MouseClicked(()), &Target::All);
    let wanted = claims.wanted();
    assert_eq!(names(&wanted), ["mouse.clicked"]);
    assert!(wanted.contains(&Kind::MouseClicked(())));
}

#[test]
fn a_scoped_event_is_not_reachable_through_dependents() {
    let mut claims = Claims::new();
    let _mine = claims.take(holder(1), &Kind::MouseClicked(()), &Target::All);
    let pressed = Kind::MouseClicked(()).into_event();
    assert!(claims.dependents(&pressed, &Target::All).is_empty());
}

#[test]
fn dropping_a_handle_tells_the_registry_to_look() {
    let mut claims = Claims::new();
    let watch = claims.take(holder(1), &Kind::SystemWoke, &Target::All);
    assert!(claims.moved(), "taking one is a change");
    assert!(!claims.moved(), "and asking clears it");

    claims.release(watch);
    assert!(claims.moved(), "so is the last one going");
}

#[test]
fn an_item_that_moved_is_holding_a_different_claim() {
    let mut claims = Claims::new();
    let was = claims.take(at(1, 0.0), &Kind::MouseEntered(()), &Target::All);
    let now = claims.take(at(1, 60.0), &Kind::MouseEntered(()), &Target::All);
    assert!(!was.same_claim(&now));

    claims.release(was);
    assert_eq!(claims.areas().on(1).len(), 1, "only where it is now");
}

#[test]
fn an_item_that_stayed_put_holds_the_claim_it_already_had() {
    let mut claims = Claims::new();
    let first = claims.take(at(1, 0.0), &Kind::MouseEntered(()), &Target::All);
    let again = claims.take(at(1, 0.0), &Kind::MouseEntered(()), &Target::All);
    assert!(first.same_claim(&again));
}

#[test]
fn an_area_claim_is_not_the_same_as_a_bare_one() {
    let mut claims = Claims::new();
    let bare = claims.take(holder(1), &Kind::MouseClicked(()), &Target::All);
    let over = claims.take(at(1, 0.0), &Kind::MouseClicked(()), &Target::All);
    assert!(!bare.same_claim(&over));
}

#[test]
fn wanted_erases_the_rectangle_a_claim_is_taken_over() {
    let mut claims = Claims::new();
    let _here = claims.take(at(1, 0.0), &Kind::MouseEntered(()), &Target::All);
    let _there = claims.take(at(2, 60.0), &Kind::MouseEntered(()), &Target::All);
    assert_eq!(names(&claims.wanted()), ["mouse.entered"]);
}

#[test]
fn the_tracked_areas_are_read_back_off_the_claims() {
    let mut claims = Claims::new();
    assert!(claims.areas().changed().is_empty(), "nothing claimed yet");

    let here = claims.take(at(1, 0.0), &Kind::MouseEntered(()), &Target::All);
    assert_eq!(*claims.areas().changed(), [1]);
    assert_eq!(claims.areas().on(1).len(), 1);
    assert!(claims.areas().changed().is_empty(), "asking twice is not a change");

    claims.release(here);
    assert_eq!(*claims.areas().changed(), [1], "the rectangle went with it");
    assert_eq!(claims.areas().on(1).len(), 0);
}

#[test]
fn a_handle_says_what_it_is_on() {
    let mut claims = Claims::new();
    let watch = claims.take(holder(1), &Kind::Custom("demo".to_owned()), &Target::All);
    assert_eq!(watch.kind().name(), "demo");
}

#[test]
fn taking_and_releasing_leaves_the_others_where_they_were() {
    let mut claims = Claims::new();
    let kept = claims.take(holder(7), &Kind::SystemWoke, &Target::All);
    let gone = claims.take(holder(7), &Kind::WifiChanged, &Target::All);
    claims.release(gone);
    assert_eq!(claims.dependents(&woke(), &Target::All), vec![7]);
    let mut into = vec![99];
    claims.dependents_into(&woke(), &Target::All, &mut into);
    assert_eq!(into, vec![7]);
    claims.release(kept);
}

#[test]
fn a_display_is_noted_once_however_much_of_it_moved() {
    let mut claims = Claims::new();
    let gone = claims.take(at(3, 90.0), &Kind::MouseEntered(()), &Target::All);
    let _ = claims.areas();
    claims.release(gone);
    let _here = claims.take(at(1, 0.0), &Kind::MouseEntered(()), &Target::All);
    let _there = claims.take(at(2, 60.0), &Kind::MouseExited(()), &Target::All);
    assert_eq!(*claims.areas().changed(), [1]);
}

#[test]
fn areas_of_another_display_are_left_alone() {
    let mut claims = Claims::new();
    let mut there = at(1, 0.0);
    there = Watched::over(there.item, Area { display: 2, ..there.area.unwrap() });
    let _here = claims.take(at(1, 0.0), &Kind::MouseExited(()), &Target::All);
    let _ = claims.areas();
    let _there = claims.take(there, &Kind::MouseExited(()), &Target::All);
    assert_eq!(*claims.areas().changed(), [2]);
    assert_eq!(claims.areas().on(1).len(), 1);
    assert_eq!(claims.areas().on(2).len(), 1);
    assert_eq!(claims.areas().on(3).len(), 0);
}
