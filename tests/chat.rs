use command_master::chat::{
    exercise_text, new_exercise_request, ChatChoice, ChatErrorResponse, ChatMessage, ChatResponse,
    ExerciseError,
};

fn choice(content: &str) -> ChatChoice {
    ChatChoice {
        index: 0,
        message: ChatMessage { role: "assistant".to_string(), content: content.to_string() },
        finish_reason: "stop".to_string(),
    }
}

fn response(choices: Vec<ChatChoice>) -> ChatResponse {
    ChatResponse {
        id: "chatcmpl-1".to_string(),
        model: "gpt-4o-mini".to_string(),
        created: 1700000000,
        choices,
    }
}

#[test]
fn request_has_model_and_two_system_messages() {
    let request = new_exercise_request(b"ls", b"NAME: ls");
    assert_eq!(request.model, b"gpt-4o-mini".to_vec());
    assert_eq!(request.messages.len(), 2);
    assert_eq!(request.messages[0].role, b"system".to_vec());
    assert_eq!(request.messages[1].role, b"system".to_vec());
    let expected = "You are a tech teacher an precisely a operating system master and you will provide a consice explication of the following command 'ls'.
              In addition, you will give a litle exercise to help learning the provided command followed by an example of this one.";
    assert_eq!(request.messages[0].content, expected.as_bytes().to_vec());
    assert_eq!(
        request.messages[1].content,
        b"If you need, this is a part of the cmd manual : \r\nNAME: ls".to_vec()
    );
}

#[test]
fn empty_digest_still_sends_second_message() {
    let request = new_exercise_request(b"ls", b"");
    assert_eq!(request.messages.len(), 2);
    assert_eq!(
        request.messages[1].content,
        b"If you need, this is a part of the cmd manual : \r\nno manual content".to_vec()
    );
}

#[test]
fn success_gives_first_choice_content() {
    let r = exercise_text(Some(response(vec![choice("first"), choice("second")])), None);
    assert_eq!(r.ok(), Some("first".to_string()));
}

#[test]
fn success_shape_wins_over_error_shape() {
    let error = ChatErrorResponse {
        error_type: "x".to_string(),
        code: None,
        message: "m".to_string(),
        param: None,
    };
    let r = exercise_text(Some(response(vec![choice("ok")])), Some(error));
    assert_eq!(r.ok(), Some("ok".to_string()));
}

#[test]
fn error_shape_gives_remote_error() {
    let error = ChatErrorResponse {
        error_type: "invalid_request_error".to_string(),
        code: Some("invalid_api_key".to_string()),
        message: "Incorrect API key provided".to_string(),
        param: None,
    };
    match exercise_text(None, Some(error)) {
        Err(ExerciseError::Remote(e)) => {
            assert_eq!(e.message, "Incorrect API key provided");
            assert_eq!(e.code.as_deref(), Some("invalid_api_key"));
            assert_eq!(e.error_type, "invalid_request_error");
            assert_eq!(e.param, None);
        }
        _ => panic!("expected a remote error"),
    }
}

#[test]
fn empty_choice_list_is_an_error() {
    assert!(matches!(exercise_text(Some(response(Vec::new())), None), Err(ExerciseError::NoChoice)));
}

#[test]
fn neither_shape_is_an_error() {
    assert!(matches!(exercise_text(None, None), Err(ExerciseError::UnknownShape)));
}
