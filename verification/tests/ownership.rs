use exercises::ownership::{bedazzle, change, inspect, predict};
use exercises::text::{str_eq, str_has_substring, str_has_suffix, str_replace};

#[test]
fn bedazzle_turns_mud_to_glitter() {
    let mut material = "mud".to_string();
    bedazzle(&mut material);
    assert_eq!(material, "glitter");
}

#[test]
fn bedazzle_replaces_every_occurrence() {
    let mut material = "mud on mud".to_string();
    bedazzle(&mut material);
    assert_eq!(material, "glitter on glitter");
}

#[test]
fn bedazzle_leaves_clean_material_alone() {
    let mut material = "stone".to_string();
    bedazzle(&mut material);
    assert_eq!(material, "stone");
}

#[test]
fn inspect_wants_some_of_a_plural() {
    let arg = "apples".to_string();
    assert_eq!(inspect(&arg), Ok("Do you want some apples?".to_string()));
    let arg = "black mulberries".to_string();
    assert_eq!(inspect(&arg), Ok("Do you want some black mulberries?".to_string()));
}

#[test]
fn inspect_wants_more_of_a_singular() {
    let arg = "apple".to_string();
    assert_eq!(inspect(&arg), Ok("I want more apple!".to_string()));
    let arg = "black mulberry".to_string();
    assert_eq!(inspect(&arg), Ok("I want more black mulberry!".to_string()));
}

#[test]
fn inspect_rejects_an_unknown_argument() {
    let arg = "xyz".to_string();
    assert_eq!(inspect(&arg), Err("xyz is not a valid argument".to_string()));
    let arg = String::new();
    assert_eq!(inspect(&arg), Err(" is not a valid argument".to_string()));
}

#[test]
fn change_prefixes_the_invitation() {
    let mut arg = "apples".to_string();
    change(&mut arg);
    assert_eq!(arg, "Okay, let's eat apples");
}

#[test]
fn predict_spots_the_apples() {
    assert!(predict("apples".to_string()));
    assert!(predict("apple".to_string()));
    assert!(!predict("bananas".to_string()));
    assert!(!predict("xyz".to_string()));
    // ends right but has no double p
    assert!(!predict("oranges".to_string()));
    // double p but the wrong ending
    assert!(!predict("pepper pots".to_string()));
}

#[test]
fn apples_walkthrough() {
    let mut arg = "apples".to_string();
    let greeting = inspect(&arg).unwrap();
    assert_eq!(greeting, "Do you want some apples?");
    change(&mut arg);
    assert_eq!(arg, "Okay, let's eat apples");
    assert!(predict(arg));
}

#[test]
fn string_helpers_agree_with_std() {
    assert!(str_eq("black mulberry", "black mulberry"));
    assert!(!str_eq("apple", "apples"));
    assert!(str_has_suffix("apples", "es"));
    assert!(!str_has_suffix("es", "apples"));
    assert!(str_has_substring("apples", "pp"));
    assert!(str_has_substring("apples", ""));
    assert!(!str_has_substring("apple", "pq"));
    assert_eq!(str_replace("aaa", "aa", "b"), "ba");
    assert_eq!(str_replace("mud", "mud", "glitter"), "glitter");
}
