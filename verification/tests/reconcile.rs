use color_bot::command::Intent;
use color_bot::notice::Notice;
use color_bot::reconcile::{
    advance, begin, start, DirectoryError, MutationError, Request, Response, State, Step,
};
use color_bot::roster::{Member, Role};

fn role(id: u64, name: &str) -> Role {
    Role { id, name: name.to_string(), color: 0, position: 1 }
}

fn member(id: u64, name: &str, roles: Vec<u64>) -> Member {
    Member { id, name: name.to_string(), roles }
}

fn quiet(request: Request) -> Step {
    Step { notice: None, request }
}

fn telling(notice: Notice, request: Request) -> Step {
    Step { notice: Some(notice), request }
}

fn create(name: &str, color: u32) -> Request {
    Request::CreateRole { name: name.to_string(), color, position: 0 }
}

/// Works through a message with the answers given, and lists the steps up
/// to the one that finishes or to the last answer.
fn steps_of(content: &str, responses: Vec<Response>) -> Vec<Step> {
    let (mut state, first) = begin(content);
    let mut done = first.request == Request::Finish;
    let mut steps = vec![first];
    for response in responses {
        if done {
            break;
        }
        let (next, step) = advance(state, response);
        state = next;
        done = step.request == Request::Finish;
        steps.push(step);
    }
    steps
}

fn ada_with_old_role() -> (Vec<Role>, Member) {
    (
        vec![role(1, "@everyone"), role(50, "color_bot_Ada_old")],
        member(7, "Ada", vec![50]),
    )
}

#[test]
fn another_message_is_finished_at_once() {
    let (state, step) = begin("hello there");
    assert_eq!(state, State::Finished);
    assert_eq!(step, quiet(Request::Finish));
}

#[test]
fn an_empty_color_is_told_once_and_nothing_is_asked() {
    for content in [".color-set ", ".color-set #"] {
        let (state, step) = begin(content);
        assert_eq!(state, State::Finished);
        assert_eq!(step, telling(Notice::EmptyColor, Request::Finish));
        let (roster, ada) = ada_with_old_role();
        let steps = steps_of(content, vec![Response::Roles(Ok(roster)), Response::Member(Ok(ada))]);
        assert_eq!(steps, vec![telling(Notice::EmptyColor, Request::Finish)]);
    }
}

#[test]
fn an_invalid_color_is_told_once_and_nothing_is_asked() {
    for content in [".color-set zz", ".color-set #zz", ".color-set 1234567", ".color-set ##1"] {
        let (state, step) = begin(content);
        assert_eq!(state, State::Finished);
        assert_eq!(step, telling(Notice::InvalidHex, Request::Finish));
        let (roster, ada) = ada_with_old_role();
        let steps = steps_of(content, vec![Response::Roles(Ok(roster)), Response::Member(Ok(ada))]);
        assert_eq!(steps, vec![telling(Notice::InvalidHex, Request::Finish)]);
    }
}

#[test]
fn a_reset_begins_by_fetching_the_roles() {
    let (state, step) = begin(".color-reset");
    assert_eq!(state, State::AwaitingRoles { intent: Intent::Reset });
    assert_eq!(step, quiet(Request::FetchRoles));
}

#[test]
fn a_color_begins_by_fetching_the_roles() {
    let (state, step) = begin(".color-set #1A2B3C");
    assert_eq!(
        state,
        State::AwaitingRoles {
            intent: Intent::SetColor { raw: "1A2B3C".to_string(), color: 0x1A2B3C },
        }
    );
    assert_eq!(step, quiet(Request::FetchRoles));
}

#[test]
fn black_is_replaced_and_the_member_is_told_once() {
    let (state, step) = begin(".color-set 0");
    assert_eq!(
        state,
        State::AwaitingRoles { intent: Intent::SetColor { raw: "0".to_string(), color: 1 } }
    );
    assert_eq!(step, telling(Notice::BlackReplaced, Request::FetchRoles));

    let steps = steps_of(
        ".color-set 0",
        vec![
            Response::Roles(Ok(vec![role(1, "@everyone")])),
            Response::Member(Ok(member(7, "Ada", vec![1]))),
            Response::Created(Ok(role(60, "color_bot_Ada_0"))),
            Response::Assigned(Ok(())),
        ],
    );
    assert_eq!(
        steps,
        vec![
            telling(Notice::BlackReplaced, Request::FetchRoles),
            quiet(Request::FetchMember),
            quiet(create("color_bot_Ada_0", 1)),
            quiet(Request::AssignRole { member_id: 7, role_id: 60 }),
            quiet(Request::Finish),
        ]
    );
    let warnings = steps.iter().filter(|step| step.notice == Some(Notice::BlackReplaced)).count();
    assert_eq!(warnings, 1);
}

#[test]
fn black_written_with_six_digits_is_replaced_too() {
    let (state, step) = begin(".color-set #000000");
    assert_eq!(
        state,
        State::AwaitingRoles {
            intent: Intent::SetColor { raw: "000000".to_string(), color: 1 },
        }
    );
    assert_eq!(step.notice, Some(Notice::BlackReplaced));
}

#[test]
fn the_darkest_blue_is_not_replaced() {
    let (state, step) = begin(".color-set 1");
    assert_eq!(
        state,
        State::AwaitingRoles { intent: Intent::SetColor { raw: "1".to_string(), color: 1 } }
    );
    assert_eq!(step, quiet(Request::FetchRoles));
}

#[test]
fn start_replaces_black() {
    let (state, step) = start(Intent::SetColor { raw: "00".to_string(), color: 0 });
    assert_eq!(
        state,
        State::AwaitingRoles { intent: Intent::SetColor { raw: "00".to_string(), color: 1 } }
    );
    assert_eq!(step, telling(Notice::BlackReplaced, Request::FetchRoles));
    let (state, step) = start(Intent::Reset);
    assert_eq!(state, State::AwaitingRoles { intent: Intent::Reset });
    assert_eq!(step, quiet(Request::FetchRoles));
}

#[test]
fn reset_deletes_the_one_color_role_and_creates_none() {
    let roster = vec![role(1, "@everyone"), role(50, "color_bot_Bo_FF0000")];
    let steps = steps_of(
        ".color-reset",
        vec![
            Response::Roles(Ok(roster)),
            Response::Member(Ok(member(8, "Bo", vec![50]))),
            Response::Deleted(Ok(())),
        ],
    );
    assert_eq!(
        steps,
        vec![
            quiet(Request::FetchRoles),
            quiet(Request::FetchMember),
            quiet(Request::DeleteRole { role_id: 50 }),
            quiet(Request::Finish),
        ]
    );
}

#[test]
fn reset_without_color_roles_deletes_nothing_and_tells_nothing() {
    let roster = vec![role(1, "@everyone"), role(20, "moderator"), role(51, "color_bot_Ada_ff")];
    let steps = steps_of(
        ".color-reset",
        vec![Response::Roles(Ok(roster)), Response::Member(Ok(member(8, "Bo", vec![1, 20])))],
    );
    assert_eq!(
        steps,
        vec![quiet(Request::FetchRoles), quiet(Request::FetchMember), quiet(Request::Finish)]
    );
}

#[test]
fn reset_leaves_other_roles_alone() {
    let roster = vec![
        role(1, "@everyone"),
        role(20, "moderator"),
        role(50, "color_bot_Bo_FF0000"),
    ];
    let steps = steps_of(
        ".color-reset",
        vec![
            Response::Roles(Ok(roster)),
            Response::Member(Ok(member(8, "Bo", vec![50, 20]))),
            Response::Deleted(Ok(())),
        ],
    );
    assert_eq!(
        steps,
        vec![
            quiet(Request::FetchRoles),
            quiet(Request::FetchMember),
            quiet(Request::DeleteRole { role_id: 50 }),
            quiet(Request::Finish),
        ]
    );
    let deleted: Vec<&Step> =
        steps.iter().filter(|step| matches!(step.request, Request::DeleteRole { .. })).collect();
    assert_eq!(deleted.len(), 1);
}

#[test]
fn reset_reports_a_failed_deletion() {
    let roster = vec![role(50, "color_bot_Bo_FF0000")];
    let steps = steps_of(
        ".color-reset",
        vec![
            Response::Roles(Ok(roster)),
            Response::Member(Ok(member(8, "Bo", vec![50]))),
            Response::Deleted(Err(MutationError)),
        ],
    );
    assert_eq!(
        steps,
        vec![
            quiet(Request::FetchRoles),
            quiet(Request::FetchMember),
            quiet(Request::DeleteRole { role_id: 50 }),
            telling(Notice::RemoveFailed, Request::Finish),
        ]
    );
}

#[test]
fn set_color_deletes_then_creates_then_assigns() {
    let (roster, ada) = ada_with_old_role();
    let steps = steps_of(
        ".color-set #1A2B3C",
        vec![
            Response::Roles(Ok(roster)),
            Response::Member(Ok(ada)),
            Response::Deleted(Ok(())),
            Response::Created(Ok(role(60, "color_bot_Ada_1A2B3C"))),
            Response::Assigned(Ok(())),
        ],
    );
    assert_eq!(
        steps,
        vec![
            quiet(Request::FetchRoles),
            quiet(Request::FetchMember),
            quiet(Request::DeleteRole { role_id: 50 }),
            quiet(create("color_bot_Ada_1A2B3C", 0x1A2B3C)),
            quiet(Request::AssignRole { member_id: 7, role_id: 60 }),
            quiet(Request::Finish),
        ]
    );
}

#[test]
fn set_color_names_the_role_as_the_color_was_written() {
    let steps = steps_of(
        ".color-set 1a2b3c",
        vec![
            Response::Roles(Ok(vec![])),
            Response::Member(Ok(member(7, "Ada", vec![]))),
        ],
    );
    assert_eq!(steps[2], quiet(create("color_bot_Ada_1a2b3c", 0x1A2B3C)));
    let steps = steps_of(
        ".color-set #00ff",
        vec![
            Response::Roles(Ok(vec![])),
            Response::Member(Ok(member(7, "Ada", vec![]))),
        ],
    );
    assert_eq!(steps[2], quiet(create("color_bot_Ada_00ff", 255)));
}

#[test]
fn set_color_without_an_old_role_creates_at_once() {
    let steps = steps_of(
        ".color-set ff0000",
        vec![
            Response::Roles(Ok(vec![role(1, "@everyone"), role(20, "moderator")])),
            Response::Member(Ok(member(9, "Cy", vec![20]))),
            Response::Created(Ok(role(61, "color_bot_Cy_ff0000"))),
            Response::Assigned(Ok(())),
        ],
    );
    assert_eq!(
        steps,
        vec![
            quiet(Request::FetchRoles),
            quiet(Request::FetchMember),
            quiet(create("color_bot_Cy_ff0000", 0xFF0000)),
            quiet(Request::AssignRole { member_id: 9, role_id: 61 }),
            quiet(Request::Finish),
        ]
    );
}

#[test]
fn a_failed_deletion_does_not_stop_the_creation() {
    let (roster, ada) = ada_with_old_role();
    let steps = steps_of(
        ".color-set #1A2B3C",
        vec![
            Response::Roles(Ok(roster)),
            Response::Member(Ok(ada)),
            Response::Deleted(Err(MutationError)),
            Response::Created(Ok(role(60, "color_bot_Ada_1A2B3C"))),
            Response::Assigned(Ok(())),
        ],
    );
    assert_eq!(
        steps,
        vec![
            quiet(Request::FetchRoles),
            quiet(Request::FetchMember),
            quiet(Request::DeleteRole { role_id: 50 }),
            telling(Notice::RemoveFailed, create("color_bot_Ada_1A2B3C", 0x1A2B3C)),
            quiet(Request::AssignRole { member_id: 7, role_id: 60 }),
            quiet(Request::Finish),
        ]
    );
}

#[test]
fn a_failed_creation_ends_without_an_assignment() {
    let (roster, ada) = ada_with_old_role();
    let steps = steps_of(
        ".color-set #1A2B3C",
        vec![
            Response::Roles(Ok(roster)),
            Response::Member(Ok(ada)),
            Response::Deleted(Ok(())),
            Response::Created(Err(MutationError)),
            Response::Assigned(Ok(())),
        ],
    );
    assert_eq!(
        steps,
        vec![
            quiet(Request::FetchRoles),
            quiet(Request::FetchMember),
            quiet(Request::DeleteRole { role_id: 50 }),
            quiet(create("color_bot_Ada_1A2B3C", 0x1A2B3C)),
            telling(Notice::CreateFailed, Request::Finish),
        ]
    );
    assert!(steps.iter().all(|step| !matches!(step.request, Request::AssignRole { .. })));
}

#[test]
fn a_failed_assignment_is_reported() {
    let steps = steps_of(
        ".color-set 00ff00",
        vec![
            Response::Roles(Ok(vec![])),
            Response::Member(Ok(member(7, "Ada", vec![]))),
            Response::Created(Ok(role(60, "color_bot_Ada_00ff00"))),
            Response::Assigned(Err(MutationError)),
        ],
    );
    assert_eq!(
        steps,
        vec![
            quiet(Request::FetchRoles),
            quiet(Request::FetchMember),
            quiet(create("color_bot_Ada_00ff00", 0x00FF00)),
            quiet(Request::AssignRole { member_id: 7, role_id: 60 }),
            telling(Notice::AssignFailed, Request::Finish),
        ]
    );
}

#[test]
fn every_color_role_is_deleted_though_one_deletion_fails() {
    let roster = vec![
        role(1, "@everyone"),
        role(50, "color_bot_Ada_111111"),
        role(51, "color_bot_Ada_222222"),
        role(52, "color_bot_Ada_333333"),
        role(20, "moderator"),
    ];
    let steps = steps_of(
        ".color-set 444444",
        vec![
            Response::Roles(Ok(roster)),
            Response::Member(Ok(member(7, "Ada", vec![52, 20, 50, 51]))),
            Response::Deleted(Ok(())),
            Response::Deleted(Err(MutationError)),
            Response::Deleted(Err(MutationError)),
            Response::Created(Ok(role(60, "color_bot_Ada_444444"))),
            Response::Assigned(Ok(())),
        ],
    );
    assert_eq!(
        steps,
        vec![
            quiet(Request::FetchRoles),
            quiet(Request::FetchMember),
            quiet(Request::DeleteRole { role_id: 52 }),
            quiet(Request::DeleteRole { role_id: 50 }),
            telling(Notice::RemoveFailed, Request::DeleteRole { role_id: 51 }),
            telling(Notice::RemoveFailed, create("color_bot_Ada_444444", 0x444444)),
            quiet(Request::AssignRole { member_id: 7, role_id: 60 }),
            quiet(Request::Finish),
        ]
    );
}

#[test]
fn reset_deletes_every_color_role() {
    let roster = vec![role(50, "color_bot_Bo_1"), role(51, "color_bot_Bo_2")];
    let steps = steps_of(
        ".color-reset",
        vec![
            Response::Roles(Ok(roster)),
            Response::Member(Ok(member(8, "Bo", vec![50, 51]))),
            Response::Deleted(Err(MutationError)),
            Response::Deleted(Ok(())),
        ],
    );
    assert_eq!(
        steps,
        vec![
            quiet(Request::FetchRoles),
            quiet(Request::FetchMember),
            quiet(Request::DeleteRole { role_id: 50 }),
            telling(Notice::RemoveFailed, Request::DeleteRole { role_id: 51 }),
            quiet(Request::Finish),
        ]
    );
}

#[test]
fn roles_that_cannot_be_fetched_end_the_work() {
    for content in [".color-reset", ".color-set ff"] {
        let steps = steps_of(
            content,
            vec![
                Response::Roles(Err(DirectoryError)),
                Response::Member(Ok(member(7, "Ada", vec![]))),
            ],
        );
        assert_eq!(
            steps,
            vec![quiet(Request::FetchRoles), telling(Notice::RolesUnavailable, Request::Finish)]
        );
    }
}

#[test]
fn a_member_who_cannot_be_fetched_ends_the_work() {
    for content in [".color-reset", ".color-set ff"] {
        let steps = steps_of(
            content,
            vec![
                Response::Roles(Ok(vec![role(50, "color_bot_Ada_old")])),
                Response::Member(Err(DirectoryError)),
                Response::Deleted(Ok(())),
            ],
        );
        assert_eq!(
            steps,
            vec![
                quiet(Request::FetchRoles),
                quiet(Request::FetchMember),
                telling(Notice::MemberUnavailable, Request::Finish),
            ]
        );
    }
}

#[test]
fn the_states_follow_the_requests() {
    let (state, _) = begin(".color-set ff");
    let intent = Intent::SetColor { raw: "ff".to_string(), color: 255 };
    assert_eq!(state, State::AwaitingRoles { intent: intent.clone() });

    let roster = vec![role(50, "color_bot_Ada_1"), role(51, "color_bot_Ada_2")];
    let (state, _) = advance(state, Response::Roles(Ok(roster.clone())));
    assert_eq!(state, State::AwaitingMember { intent: intent.clone(), roster });

    let (state, step) = advance(state, Response::Member(Ok(member(7, "Ada", vec![50, 51]))));
    assert_eq!(step, quiet(Request::DeleteRole { role_id: 50 }));
    assert_eq!(
        state,
        State::Deleting {
            intent: intent.clone(),
            member_id: 7,
            member_name: "Ada".to_string(),
            remaining: vec![51],
        }
    );

    let (state, step) = advance(state, Response::Deleted(Ok(())));
    assert_eq!(step, quiet(Request::DeleteRole { role_id: 51 }));
    assert_eq!(
        state,
        State::Deleting {
            intent,
            member_id: 7,
            member_name: "Ada".to_string(),
            remaining: vec![],
        }
    );

    let (state, step) = advance(state, Response::Deleted(Ok(())));
    assert_eq!(step, quiet(create("color_bot_Ada_ff", 255)));
    assert_eq!(state, State::Creating { member_id: 7 });

    let (state, step) = advance(state, Response::Created(Ok(role(60, "color_bot_Ada_ff"))));
    assert_eq!(step, quiet(Request::AssignRole { member_id: 7, role_id: 60 }));
    assert_eq!(state, State::Assigning);

    let (state, step) = advance(state, Response::Assigned(Ok(())));
    assert_eq!(step, quiet(Request::Finish));
    assert_eq!(state, State::Finished);
}

#[test]
fn finished_work_stays_finished() {
    let answers = vec![
        Response::Roles(Ok(vec![])),
        Response::Roles(Err(DirectoryError)),
        Response::Member(Ok(member(7, "Ada", vec![]))),
        Response::Member(Err(DirectoryError)),
        Response::Deleted(Ok(())),
        Response::Deleted(Err(MutationError)),
        Response::Created(Ok(role(60, "color_bot_Ada_ff"))),
        Response::Created(Err(MutationError)),
        Response::Assigned(Ok(())),
        Response::Assigned(Err(MutationError)),
    ];
    for answer in answers {
        let (state, step) = advance(State::Finished, answer);
        assert_eq!(state, State::Finished);
        assert_eq!(step, quiet(Request::Finish));
    }
}

#[test]
fn an_answer_to_another_request_ends_the_work() {
    let (state, step) =
        advance(State::AwaitingRoles { intent: Intent::Reset }, Response::Deleted(Ok(())));
    assert_eq!((state, step), (State::Finished, quiet(Request::Finish)));

    let (state, step) = advance(
        State::AwaitingMember { intent: Intent::Reset, roster: vec![] },
        Response::Roles(Ok(vec![])),
    );
    assert_eq!((state, step), (State::Finished, quiet(Request::Finish)));

    let (state, step) = advance(State::Creating { member_id: 7 }, Response::Assigned(Ok(())));
    assert_eq!((state, step), (State::Finished, quiet(Request::Finish)));

    let (state, step) =
        advance(State::Assigning, Response::Created(Ok(role(60, "color_bot_Ada_ff"))));
    assert_eq!((state, step), (State::Finished, quiet(Request::Finish)));

    let (state, step) = advance(
        State::Deleting {
            intent: Intent::Reset,
            member_id: 7,
            member_name: "Ada".to_string(),
            remaining: vec![51],
        },
        Response::Member(Err(DirectoryError)),
    );
    assert_eq!((state, step), (State::Finished, quiet(Request::Finish)));
}

#[test]
fn the_assigned_role_is_the_created_one() {
    let (state, step) =
        advance(State::Creating { member_id: 12 }, Response::Created(Ok(role(77, "anything"))));
    assert_eq!(state, State::Assigning);
    assert_eq!(step, quiet(Request::AssignRole { member_id: 12, role_id: 77 }));
}

#[test]
fn ada_sets_a_color_while_holding_an_old_one() {
    let roster = vec![role(1, "@everyone"), role(50, "color_bot_Ada_old")];
    let ada = member(7, "Ada", vec![50]);
    let steps = steps_of(
        ".color-set #1A2B3C",
        vec![
            Response::Roles(Ok(roster)),
            Response::Member(Ok(ada)),
            Response::Deleted(Ok(())),
            Response::Created(Ok(Role {
                id: 99,
                name: "color_bot_Ada_1A2B3C".to_string(),
                color: 0x1A2B3C,
                position: 1,
            })),
            Response::Assigned(Ok(())),
        ],
    );
    let mutations: Vec<Request> = steps
        .into_iter()
        .map(|step| step.request)
        .filter(|request| {
            !matches!(request, Request::FetchRoles | Request::FetchMember | Request::Finish)
        })
        .collect();
    assert_eq!(
        mutations,
        vec![
            Request::DeleteRole { role_id: 50 },
            Request::CreateRole {
                name: "color_bot_Ada_1A2B3C".to_string(),
                color: 0x1A2B3C,
                position: 0,
            },
            Request::AssignRole { member_id: 7, role_id: 99 },
        ]
    );
}

#[test]
fn bo_resets_while_holding_a_color_and_another_role() {
    let roster = vec![
        role(1, "@everyone"),
        role(40, "color_bot_Bo_FF0000"),
        role(41, "moderator"),
    ];
    let bo = member(8, "Bo", vec![40, 41]);
    let steps = steps_of(
        ".color-reset",
        vec![Response::Roles(Ok(roster)), Response::Member(Ok(bo)), Response::Deleted(Ok(()))],
    );
    let mutations: Vec<Request> = steps
        .into_iter()
        .map(|step| step.request)
        .filter(|request| {
            !matches!(request, Request::FetchRoles | Request::FetchMember | Request::Finish)
        })
        .collect();
    assert_eq!(mutations, vec![Request::DeleteRole { role_id: 40 }]);
}
