use planner::drag::DragCoordinator;
use planner::error::GatewayError;
use planner::filter::TaskFilter;
use planner::gateway::{create_task, delete_task, get_tasks, update_task, Gateway};
use planner::item::{Item, ItemEffect};
use planner::list::{ItemList, NewTask};
use planner::model::{Date, Id, Task, Timestamp};
use planner::store::TaskTable;

const MONDAY: Date = Date { days: 738_156 };
const TUESDAY: Date = Date { days: 738_157 };

fn task(id: u128, title: &str, date: Option<Date>, backlog: Option<u128>) -> Task {
    Task {
        id: Id(id),
        title: String::from(title),
        important: false,
        urgent: false,
        content: None,
        completed: false,
        role_id: None,
        backlog_id: backlog.map(Id),
        scheduled_date: date,
        created_at: Timestamp { secs: 100, nanos: 0 },
        updated_at: None,
        deleted_at: None,
    }
}

fn ids(list: &ItemList) -> Vec<Id> {
    list.tasks.iter().map(|t| t.id).collect()
}

#[test]
fn new_list_is_empty() {
    let list = ItemList::new(TaskFilter::for_day(MONDAY));
    assert_eq!(list.filter, TaskFilter::for_day(MONDAY));
    assert!(list.tasks.is_empty());
    assert_eq!(list.new_task, "");
}

#[test]
fn load_takes_what_was_fetched() {
    let mut list = ItemList::new(TaskFilter::inbox());
    list.load(Ok(vec![task(1, "a", None, None), task(2, "b", None, None)]));
    assert_eq!(ids(&list), vec![Id(1), Id(2)]);
    list.load(Err(GatewayError::ConnectionError));
    assert_eq!(ids(&list), vec![Id(1), Id(2)]);
    list.load(Ok(vec![]));
    assert!(list.tasks.is_empty());
}

#[test]
fn submit_of_an_empty_field_asks_for_nothing() {
    let mut list = ItemList::new(TaskFilter::inbox());
    assert_eq!(list.submit(), None);
    list.input(String::from("x"));
    list.cancel();
    assert_eq!(list.new_task, "");
    assert_eq!(list.submit(), None);
}

#[test]
fn submit_files_the_request_where_the_list_is() {
    let mut day = ItemList::new(TaskFilter::for_day(MONDAY));
    day.input(String::from("Buy milk"));
    assert_eq!(
        day.submit(),
        Some(NewTask { title: String::from("Buy milk"), date: Some(MONDAY), backlog_id: None })
    );
    assert_eq!(day.new_task, "Buy milk");
    let mut board = ItemList::new(TaskFilter::for_backlog(Id(7)));
    board.input(String::from("Paint"));
    assert_eq!(
        board.submit(),
        Some(NewTask { title: String::from("Paint"), date: None, backlog_id: Some(Id(7)) })
    );
}

#[test]
fn created_task_joins_the_list_and_clears_the_field() {
    let mut list = ItemList::new(TaskFilter::inbox());
    list.load(Ok(vec![task(1, "a", None, None)]));
    list.input(String::from("Buy milk"));
    list.created(Ok(task(2, "Buy milk", None, None)));
    assert_eq!(list.tasks, vec![task(1, "a", None, None), task(2, "Buy milk", None, None)]);
    assert_eq!(list.new_task, "");
}

#[test]
fn failed_create_leaves_no_orphan() {
    let mut list = ItemList::new(TaskFilter::inbox());
    list.load(Ok(vec![task(1, "a", None, None)]));
    list.input(String::from("Buy milk"));
    list.created(Err(GatewayError::ConnectionError));
    assert_eq!(list.tasks, vec![task(1, "a", None, None)]);
    assert_eq!(list.new_task, "Buy milk");
}

#[test]
fn deleted_task_leaves_the_list() {
    let mut list = ItemList::new(TaskFilter::inbox());
    list.load(Ok(vec![task(1, "a", None, None), task(2, "b", None, None), task(3, "c", None, None)]));
    list.deleted(Id(2), Ok(()));
    assert_eq!(ids(&list), vec![Id(1), Id(3)]);
    list.deleted(Id(1), Err(GatewayError::NotFound));
    assert_eq!(ids(&list), vec![Id(1), Id(3)]);
    list.deleted(Id(9), Ok(()));
    assert_eq!(ids(&list), vec![Id(1), Id(3)]);
}

#[test]
fn updated_task_takes_its_place_in_the_list() {
    let mut list = ItemList::new(TaskFilter::inbox());
    list.load(Ok(vec![task(1, "a", None, None), task(2, "b", None, None)]));
    list.updated(Ok(task(1, "A", None, None)));
    assert_eq!(list.tasks, vec![task(1, "A", None, None), task(2, "b", None, None)]);
    list.updated(Err(GatewayError::SerializationError));
    assert_eq!(list.tasks, vec![task(1, "A", None, None), task(2, "b", None, None)]);
    list.updated(Ok(task(5, "e", None, None)));
    assert_eq!(list.tasks, vec![task(1, "A", None, None), task(2, "b", None, None)]);
}

#[test]
fn drop_without_a_carried_task_asks_for_nothing() {
    let list = ItemList::new(TaskFilter::for_day(MONDAY));
    let drag = DragCoordinator::new();
    assert_eq!(list.drop_request(&drag), None);
}

#[test]
fn drop_on_the_own_list_asks_for_nothing() {
    let list = ItemList::new(TaskFilter::for_day(MONDAY));
    let mut drag = DragCoordinator::new();
    drag.start_drag(&task(1, "a", Some(MONDAY), None));
    assert_eq!(list.drop_request(&drag), None);
}

#[test]
fn drop_files_the_task_under_the_target() {
    let mut drag = DragCoordinator::new();
    drag.start_drag(&task(1, "a", None, Some(7)));
    let day = ItemList::new(TaskFilter::for_day(MONDAY));
    assert_eq!(day.drop_request(&drag), Some(task(1, "a", Some(MONDAY), None)));
    let inbox = ItemList::new(TaskFilter::inbox());
    assert_eq!(inbox.drop_request(&drag), Some(task(1, "a", None, None)));
    let board = ItemList::new(TaskFilter::for_backlog(Id(8)));
    assert_eq!(board.drop_request(&drag), Some(task(1, "a", None, Some(8))));
    assert!(day.tasks.is_empty());
    assert_eq!(drag.dropped, None);
}

#[test]
fn dragging_buy_milk_onto_tuesday_moves_it() {
    let mut gateway = Gateway::new();
    let mut drag = DragCoordinator::new();
    let mut inbox = ItemList::new(TaskFilter::inbox());
    let mut tuesday = ItemList::new(TaskFilter::for_day(TUESDAY));
    inbox.input(String::from("Buy milk"));
    let request = inbox.submit().unwrap();
    inbox.created(create_task(&mut gateway, request.title, request.date, request.backlog_id));
    tuesday.load(Ok(get_tasks(&gateway, TaskFilter::for_day(TUESDAY))));
    assert_eq!(inbox.tasks.len(), 1);
    assert!(tuesday.tasks.is_empty());
    let milk = inbox.tasks[0].clone();

    Item::new(milk.clone()).drag_start(&mut drag);
    let update = tuesday.drop_request(&drag).unwrap();
    tuesday.drop_settled(&mut drag, update_task(&mut gateway, update));
    inbox.observe(&drag);
    tuesday.observe(&drag);

    assert!(inbox.tasks.is_empty());
    assert_eq!(tuesday.tasks.len(), 1);
    assert_eq!(tuesday.tasks[0].id, milk.id);
    assert_eq!(tuesday.tasks[0].title, "Buy milk");
    assert_eq!(tuesday.tasks[0].scheduled_date, Some(TUESDAY));
    assert_eq!(tuesday.tasks[0].backlog_id, None);
    assert!(tuesday.tasks[0].updated_at.is_some());
    assert_eq!(drag.dropped, Some(tuesday.tasks[0].clone()));
    assert!(get_tasks(&gateway, TaskFilter::inbox()).is_empty());
    assert_eq!(get_tasks(&gateway, TaskFilter::for_day(TUESDAY)), tuesday.tasks);
}

#[test]
fn every_list_gives_up_a_task_dropped_elsewhere() {
    let mut table = TaskTable::new();
    table.restore(task(1, "keep", Some(MONDAY), None)).unwrap();
    table.restore(task(2, "move", Some(MONDAY), None)).unwrap();
    let mut monday = ItemList::new(TaskFilter::for_day(MONDAY));
    let mut tuesday = ItemList::new(TaskFilter::for_day(TUESDAY));
    let mut inbox = ItemList::new(TaskFilter::inbox());
    monday.load(Ok(table.list(TaskFilter::for_day(MONDAY))));
    tuesday.load(Ok(table.list(TaskFilter::for_day(TUESDAY))));
    let mut drag = DragCoordinator::new();
    drag.start_drag(&monday.tasks[1]);
    let update = tuesday.drop_request(&drag).unwrap();
    let stamp = Timestamp { secs: 900, nanos: 0 };
    tuesday.drop_settled(&mut drag, table.update(update, stamp));
    monday.observe(&drag);
    tuesday.observe(&drag);
    inbox.observe(&drag);
    let mut moved = task(2, "move", Some(TUESDAY), None);
    moved.updated_at = Some(stamp);
    assert_eq!(monday.tasks, vec![task(1, "keep", Some(MONDAY), None)]);
    assert_eq!(tuesday.tasks, vec![moved]);
    assert!(inbox.tasks.is_empty());
    monday.observe(&drag);
    tuesday.observe(&drag);
    assert_eq!(ids(&monday), vec![Id(1)]);
    assert_eq!(ids(&tuesday), vec![Id(2)]);
}

#[test]
fn move_from_a_backlog_to_a_day_clears_the_backlog() {
    let mut table = TaskTable::new();
    table.restore(task(1, "paint", None, Some(7))).unwrap();
    let mut board = ItemList::new(TaskFilter::for_backlog(Id(7)));
    let mut monday = ItemList::new(TaskFilter::for_day(MONDAY));
    board.load(Ok(table.list(TaskFilter::for_backlog(Id(7)))));
    let mut drag = DragCoordinator::new();
    drag.start_drag(&board.tasks[0]);
    let update = monday.drop_request(&drag).unwrap();
    monday.drop_settled(&mut drag, table.update(update, Timestamp { secs: 900, nanos: 0 }));
    board.observe(&drag);
    monday.observe(&drag);
    assert!(board.tasks.is_empty());
    assert_eq!(ids(&monday), vec![Id(1)]);
    assert_eq!(monday.tasks[0].scheduled_date, Some(MONDAY));
    assert_eq!(monday.tasks[0].backlog_id, None);
    assert!(table.list(TaskFilter::for_backlog(Id(7))).is_empty());
    assert_eq!(table.list(TaskFilter::for_day(MONDAY)), monday.tasks);
}

#[test]
fn failed_update_moves_nothing() {
    let mut table = TaskTable::new();
    let mut monday = ItemList::new(TaskFilter::for_day(MONDAY));
    let mut tuesday = ItemList::new(TaskFilter::for_day(TUESDAY));
    monday.load(Ok(vec![task(2, "move", Some(MONDAY), None)]));
    let mut drag = DragCoordinator::new();
    drag.start_drag(&monday.tasks[0]);
    let update = tuesday.drop_request(&drag).unwrap();
    let outcome = table.update(update, Timestamp { secs: 900, nanos: 0 });
    assert_eq!(outcome, Err(GatewayError::NotFound));
    tuesday.drop_settled(&mut drag, outcome);
    monday.observe(&drag);
    tuesday.observe(&drag);
    assert_eq!(monday.tasks, vec![task(2, "move", Some(MONDAY), None)]);
    assert!(tuesday.tasks.is_empty());
    assert_eq!(drag.dropped, None);
    assert_eq!(drag.dragging, Some(task(2, "move", Some(MONDAY), None)));
    tuesday.drop_settled(&mut drag, Err(GatewayError::ConnectionError));
    assert!(tuesday.tasks.is_empty());
    assert_eq!(drag.dropped, None);
}

#[test]
fn observe_keeps_a_task_that_belongs_to_the_list() {
    let mut monday = ItemList::new(TaskFilter::for_day(MONDAY));
    monday.load(Ok(vec![task(1, "a", Some(MONDAY), None), task(2, "b", Some(MONDAY), None)]));
    let mut drag = DragCoordinator::new();
    monday.observe(&drag);
    assert_eq!(ids(&monday), vec![Id(1), Id(2)]);
    drag.publish(task(2, "b", Some(MONDAY), None));
    monday.observe(&drag);
    assert_eq!(ids(&monday), vec![Id(1), Id(2)]);
    drag.publish(task(3, "c", Some(TUESDAY), None));
    monday.observe(&drag);
    assert_eq!(ids(&monday), vec![Id(1), Id(2)]);
    drag.publish(task(1, "a", None, Some(7)));
    monday.observe(&drag);
    assert_eq!(ids(&monday), vec![Id(2)]);
}

#[test]
fn observe_goes_by_date_and_backlog_together() {
    let mut monday = ItemList::new(TaskFilter::for_day(MONDAY));
    monday.load(Ok(vec![task(1, "a", Some(MONDAY), None), task(2, "b", Some(MONDAY), None)]));
    let mut drag = DragCoordinator::new();
    drag.publish(task(1, "a", Some(MONDAY), Some(7)));
    monday.observe(&drag);
    assert_eq!(ids(&monday), vec![Id(2)]);
    let both = ItemList::new(TaskFilter { scheduled_date: Some(MONDAY), backlog_id: Some(Id(7)) });
    drag.start_drag(&task(2, "b", Some(MONDAY), None));
    assert_eq!(both.drop_request(&drag), Some(task(2, "b", Some(MONDAY), Some(7))));
    drag.start_drag(&task(2, "b", Some(MONDAY), Some(7)));
    assert_eq!(both.drop_request(&drag), None);
    assert_eq!(monday.drop_request(&drag), Some(task(2, "b", Some(MONDAY), None)));
}

#[test]
fn a_move_settles_among_many_lists() {
    let mut table = TaskTable::new();
    table.restore(task(1, "keep", Some(MONDAY), None)).unwrap();
    table.restore(task(2, "move", Some(MONDAY), None)).unwrap();
    table.restore(task(3, "paint", None, Some(7))).unwrap();
    table.restore(task(4, "loose", None, None)).unwrap();
    let filters = [
        TaskFilter::inbox(),
        TaskFilter::for_day(MONDAY),
        TaskFilter::for_day(TUESDAY),
        TaskFilter::for_backlog(Id(7)),
        TaskFilter::for_backlog(Id(8)),
    ];
    let mut lists: Vec<ItemList> = filters.iter().map(|f| ItemList::new(*f)).collect();
    for list in lists.iter_mut() {
        let fetched = table.list(list.filter);
        list.load(Ok(fetched));
    }
    let mut drag = DragCoordinator::new();
    drag.start_drag(&lists[1].tasks[1]);
    let update = lists[4].drop_request(&drag).unwrap();
    let outcome = table.update(update, Timestamp { secs: 900, nanos: 0 });
    lists[4].drop_settled(&mut drag, outcome);
    for list in lists.iter_mut() {
        list.observe(&drag);
    }
    let held: usize = lists.iter().map(|l| l.tasks.iter().filter(|t| t.id == Id(2)).count()).sum();
    assert_eq!(held, 1);
    assert_eq!(ids(&lists[0]), vec![Id(4)]);
    assert_eq!(ids(&lists[1]), vec![Id(1)]);
    assert!(lists[2].tasks.is_empty());
    assert_eq!(ids(&lists[3]), vec![Id(3)]);
    assert_eq!(ids(&lists[4]), vec![Id(2)]);
    assert_eq!(lists[4].tasks[0].backlog_id, Some(Id(8)));
    assert_eq!(lists[4].tasks[0].scheduled_date, None);
    for list in lists.iter() {
        assert_eq!(table.list(list.filter), list.tasks);
    }
}

#[test]
fn publish_overwrites_the_task_dropped_last() {
    let mut drag = DragCoordinator::new();
    drag.start_drag(&task(1, "a", None, None));
    drag.publish(task(1, "a", Some(MONDAY), None));
    drag.publish(task(2, "b", Some(TUESDAY), None));
    assert_eq!(drag.dropped, Some(task(2, "b", Some(TUESDAY), None)));
    assert_eq!(drag.dragging, Some(task(1, "a", None, None)));
}

#[test]
fn editing_buy_milk_to_nothing_deletes_it() {
    let mut gateway = Gateway::new();
    let mut inbox = ItemList::new(TaskFilter::inbox());
    inbox.created(create_task(&mut gateway, String::from("Buy milk"), None, None));
    let mut item = Item::new(inbox.tasks[0].clone());
    item.pointer_enter();
    item.click();
    item.input(String::new());
    let effect = item.commit();
    let id = inbox.tasks[0].id;
    assert_eq!(effect, ItemEffect::Delete(id));
    inbox.deleted(id, delete_task(&mut gateway, id));
    assert!(inbox.tasks.is_empty());
    assert!(get_tasks(&gateway, TaskFilter::inbox()).is_empty());
    assert!(gateway.tasks.contains(id));
}

#[test]
fn unchanged_commit_leaves_the_update_time() {
    let mut gateway = Gateway::new();
    let made = create_task(&mut gateway, String::from("Buy milk"), None, None).unwrap();
    let mut item = Item::new(made.clone());
    item.pointer_enter();
    item.click();
    assert_eq!(item.commit(), ItemEffect::Nothing);
    let stored = get_tasks(&gateway, TaskFilter::inbox());
    assert_eq!(stored, vec![made]);
    assert_eq!(stored[0].updated_at, None);
}

#[test]
fn changed_commit_reaches_the_store_and_the_list() {
    let mut gateway = Gateway::new();
    let mut inbox = ItemList::new(TaskFilter::inbox());
    inbox.created(create_task(&mut gateway, String::from("Buy milk"), None, None));
    let mut item = Item::new(inbox.tasks[0].clone());
    item.click();
    item.input(String::from("Buy bread"));
    match item.commit() {
        ItemEffect::Update(change) => inbox.updated(update_task(&mut gateway, change)),
        other => panic!("unexpected effect {:?}", other),
    }
    assert_eq!(inbox.tasks.len(), 1);
    assert_eq!(inbox.tasks[0].title, "Buy bread");
    assert!(inbox.tasks[0].updated_at.is_some());
    assert_eq!(get_tasks(&gateway, TaskFilter::inbox()), inbox.tasks);
}
