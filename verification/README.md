# tui-do-list

A daily to-do list for the terminal: one page per day, unfinished tasks are
carried over, completed ones stay where they were done. What the list is, what
each key does to it and what each screen shows is a library verified with
[Verus](https://github.com/verus-lang/verus); the program around it reads and
writes files and talks to the terminal.

```
src/
  text, date, date_laws         texts, the calendar, times of day
  task, pages, model            a task, a day's page, the store and its operations
  query                         progress, reminders, sorting, search, statistics
  count, laws, query_laws       what holds of stores and queries as a whole
  keys, keymap, theme, config   keys, actions, colours, settings
  cli, storage                  arguments, Markdown, notifications; loading and locking
  editor, app, lists            the state: a line being typed, the lists, the day in view
  actions, typing, popup_keys, handle
                                what each key press does to the state
  style, screen, review, popup  what each screen shows
  app_laws, app_numbers, privacy
                                what holds of the application as a whole
tests/                          examples that run
app/                            the terminal program
```

Every operation states what it does as a function on a mathematical view
(`Store` on `StoreV`, `App` on `AppV`), and the laws are proved of those views:
carrying over keeps every task, no number is given twice, undo restores what was
deleted, no change goes unreported, and what is masked does not show.

Calls into other crates stand behind small functions marked
`#[verifier::external_body]`, whose contracts are taken on trust: dates and their
texts (chrono, time), colour names (ratatui) and the text of the settings
(toml_edit).
