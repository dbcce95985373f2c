use file_organizer::picker::{select_folder, PickError, PickOutcome};

#[test]
fn chosen_folder_is_returned() {
    assert_eq!(
        select_folder(PickOutcome::Chosen("/home/user".to_string())),
        Ok("/home/user".to_string())
    );
}

#[test]
fn cancelled_dialog_is_an_error() {
    assert_eq!(
        select_folder(PickOutcome::Cancelled),
        Err(PickError::UserCancelled)
    );
}

#[test]
fn unrepresentable_path_is_an_error() {
    assert_eq!(
        select_folder(PickOutcome::Unrepresentable),
        Err(PickError::InvalidPath)
    );
}
