# mio_misc

Queues, channels and a scheduler that deliver notifications to a `mio` event
loop, written in Verus.

- `src/` is the verified library:
  - `lib.rs`: `NotificationId` and `IdSequence`, the source of unique ids.
  - `queue.rs`: the `Notifier` and `NotificationReceiver` traits, the
    unbounded `NotificationQueue` and the `BoundedNotificationQueue`.
  - `channel.rs`: senders for `std::sync::mpsc` and `crossbeam` channels that
    notify after each value the channel accepts, and their errors.
  - `scheduler.rs`: `ScheduleEntry`, `ScheduleEntryId`, `SchedulerStatus`,
    the `Notification` a notification scheduler runs, and thread names.
  - `timetable.rs`: the decision core of the scheduler thread, one round at
    a time, with the properties it keeps stated as proof functions.
- `app/` holds what talks to the operating system: `Poll`, the scheduler thread
  (`Scheduler`, `NotificationScheduler`) and process-wide id sequences.
- `tests/` exercises the library with the real outside crates.
