use finmath::advisor::{advisor_error_reply, build_advisor_prompt};
use finmath::telemetry::{category_label, position_source_label};

#[test]
fn position_source_labels() {
    assert_eq!(position_source_label(0), "ADS-B");
    assert_eq!(position_source_label(1), "ASTERIX");
    assert_eq!(position_source_label(2), "MLAT");
    assert_eq!(position_source_label(3), "FLARM");
    assert_eq!(position_source_label(4), "Unknown");
    assert_eq!(position_source_label(99), "Unknown");
}

#[test]
fn category_labels() {
    assert_eq!(category_label(0), "Unknown");
    assert_eq!(category_label(1), "No Info");
    assert_eq!(category_label(2), "Light");
    assert_eq!(category_label(6), "Heavy");
    assert_eq!(category_label(8), "Rotorcraft");
    assert_eq!(category_label(12), "Ultralight");
    // Code 13 is unassigned.
    assert_eq!(category_label(13), "Unknown");
    assert_eq!(category_label(14), "UAV/Drone");
    assert_eq!(category_label(15), "Space Vehicle");
    assert_eq!(category_label(200), "Unknown");
}

#[test]
fn advisor_prompt_contains_context_and_question() {
    let p = build_advisor_prompt("monthly budget 5jt", "how much should I save?");
    assert_eq!(
        p,
        "Context: monthly budget 5jt\n\nUser Question: how much should I save?\n\n\
         Instructions: Provide short, professional financial advice as MasterUang AI Advisor. \
         Respond in Indonesian unless the user speaks English. Be concise but thorough. \
         Use bullet points when appropriate."
    );
}

#[test]
fn advisor_error_reply_for_denied_credential() {
    let r = advisor_error_reply("PERMISSION_DENIED", "key rejected");
    assert_eq!(r, "Akses AI ditolak. API Key tidak valid.");
}

#[test]
fn advisor_error_reply_for_other_errors() {
    let r = advisor_error_reply("RESOURCE_EXHAUSTED", "quota exceeded");
    assert_eq!(r, "Layanan AI error: quota exceeded");
}
