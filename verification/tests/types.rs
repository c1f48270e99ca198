use rsipstack::transaction::types::IdentityBehavior;

#[test]
fn test_default_is_always() {
    assert_eq!(IdentityBehavior::default(), IdentityBehavior::Always);
}

#[test]
fn test_display() {
    assert_eq!(IdentityBehavior::Always.to_string(), "Always");
    assert_eq!(IdentityBehavior::Never.to_string(), "Never");
    assert_eq!(IdentityBehavior::OnlyGenerated.to_string(), "OnlyGenerated");
}

#[test]
fn test_equality() {
    assert_eq!(IdentityBehavior::Always, IdentityBehavior::Always);
    assert_ne!(IdentityBehavior::Always, IdentityBehavior::Never);
    assert_ne!(IdentityBehavior::Never, IdentityBehavior::OnlyGenerated);
}

#[test]
fn test_clone() {
    let behavior = IdentityBehavior::OnlyGenerated;
    let cloned = behavior;
    assert_eq!(behavior, cloned);
}

#[test]
fn test_debug() {
    let behavior = IdentityBehavior::Always;
    assert_eq!(format!("{:?}", behavior), "Always");
}
